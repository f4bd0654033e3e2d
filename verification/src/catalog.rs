//! The static catalogue: the script payload of every item, and the builder
//! that lays the whole menu tree out in an arena.
//!
//! Nodes are pushed children-first, so every group's children sit at lower
//! arena indices than the group itself; that is what makes the finished
//! tree well-formed.

use vstd::prelude::*;

use crate::menu::{
    arena_wf, children_below, leaf_contrib, no_selection, node_wf, selected_leaves,
    selected_leaves_list, selected_payloads, spec_toggle, MenuNode, MenuTree, NodeView,
};
use crate::synth::{joined_payloads, spec_header, spec_script};
use crate::os::OsDistribution;

verus! {

pub fn minimal_install() -> (r: &'static str)
    ensures
        r@ == "sudo dnf install -y gdm gnome-browser-connector\nsudo systemctl set-default graphical.target"@,
{
    "sudo dnf install -y gdm gnome-browser-connector\nsudo systemctl set-default graphical.target"
}

pub fn full_install() -> (r: &'static str)
    ensures
        r@ == "sudo dnf groupinstall -y 'Workstation'\nsudo systemctl set-default graphical.target"@,
{
    "sudo dnf groupinstall -y 'Workstation'\nsudo systemctl set-default graphical.target"
}

pub fn compile_from_source() -> (r: &'static str)
    ensures
        r@ == "# This is a complex process and requires many dependencies.\n# This script is a placeholder for the required commands.\nsudo dnf install -y ninja-build meson gcc wayland-devel wayland-protocols-devel libinput-devel libxcb-devel libxkbcommon-devel pixman-devel"@,
{
    "# This is a complex process and requires many dependencies.\n# This script is a placeholder for the required commands.\nsudo dnf install -y ninja-build meson gcc wayland-devel wayland-protocols-devel libinput-devel libxcb-devel libxkbcommon-devel pixman-devel"
}

pub fn install_wofi() -> (r: &'static str)
    ensures
        r@ == "sudo dnf install -y wofi"@,
{
    "sudo dnf install -y wofi"
}

pub fn add_ceph() -> (r: &'static str)
    ensures
        r@ == "sudo dnf install -y ceph-common"@,
{
    "sudo dnf install -y ceph-common"
}

pub fn add_crb() -> (r: &'static str)
    ensures
        r@ == "sudo dnf config-manager --set-enabled codeready-builder-for-rhel-10-rhui-rpms || sudo dnf config-manager --set-enabled crb"@,
{
    "sudo dnf config-manager --set-enabled codeready-builder-for-rhel-10-rhui-rpms || sudo dnf config-manager --set-enabled crb"
}

pub fn add_epel() -> (r: &'static str)
    ensures
        r@ == "sudo dnf install -y epel-release"@,
{
    "sudo dnf install -y epel-release"
}

pub fn add_flathub() -> (r: &'static str)
    ensures
        r@ == "sudo flatpak remote-add --if-not-exists flathub https://flathub.org/repo/flathub.flatpakrepo"@,
{
    "sudo flatpak remote-add --if-not-exists flathub https://flathub.org/repo/flathub.flatpakrepo"
}

pub fn add_rt() -> (r: &'static str)
    ensures
        r@ == "sudo dnf config-manager --set-enabled rt"@,
{
    "sudo dnf config-manager --set-enabled rt"
}

pub fn add_ha() -> (r: &'static str)
    ensures
        r@ == "sudo dnf config-manager --set-enabled ha"@,
{
    "sudo dnf config-manager --set-enabled ha"
}

pub fn install_kvm() -> (r: &'static str)
    ensures
        r@ == "sudo dnf install -y @virtualization\nsudo systemctl enable --now libvirtd"@,
{
    "sudo dnf install -y @virtualization\nsudo systemctl enable --now libvirtd"
}

pub fn install_cockpit_minimal() -> (r: &'static str)
    ensures
        r@ == "sudo dnf install -y cockpit\nsudo systemctl enable --now cockpit.socket\nsudo firewall-cmd --add-service=cockpit --permanent\nsudo firewall-cmd --reload"@,
{
    "sudo dnf install -y cockpit\nsudo systemctl enable --now cockpit.socket\nsudo firewall-cmd --add-service=cockpit --permanent\nsudo firewall-cmd --reload"
}

pub fn install_cockpit_full() -> (r: &'static str)
    ensures
        r@ == "sudo dnf install -y cockpit cockpit-machines\nsudo systemctl enable --now cockpit.socket\nsudo firewall-cmd --add-service=cockpit --permanent\nsudo firewall-cmd --reload"@,
{
    "sudo dnf install -y cockpit cockpit-machines\nsudo systemctl enable --now cockpit.socket\nsudo firewall-cmd --add-service=cockpit --permanent\nsudo firewall-cmd --reload"
}

pub fn install_vpn_ovpn() -> (r: &'static str)
    ensures
        r@ == "sudo dnf install -y NetworkManager-openvpn NetworkManager-openvpn-gnome"@,
{
    "sudo dnf install -y NetworkManager-openvpn NetworkManager-openvpn-gnome"
}

pub fn install_vpn_l2tp() -> (r: &'static str)
    ensures
        r@ == "sudo dnf install -y NetworkManager-l2tp NetworkManager-l2tp-gnome"@,
{
    "sudo dnf install -y NetworkManager-l2tp NetworkManager-l2tp-gnome"
}

pub fn install_vpn_sswan() -> (r: &'static str)
    ensures
        r@ == "sudo dnf install -y strongswan strongswan-charon-nm"@,
{
    "sudo dnf install -y strongswan strongswan-charon-nm"
}

pub fn install_vpn_lswan() -> (r: &'static str)
    ensures
        r@ == "sudo dnf install -y NetworkManager-libreswan NetworkManager-libreswan-gnome"@,
{
    "sudo dnf install -y NetworkManager-libreswan NetworkManager-libreswan-gnome"
}

pub fn install_vpn_pptp() -> (r: &'static str)
    ensures
        r@ == "sudo dnf install -y NetworkManager-pptp NetworkManager-pptp-gnome"@,
{
    "sudo dnf install -y NetworkManager-pptp NetworkManager-pptp-gnome"
}

pub fn install_vpn_oconn() -> (r: &'static str)
    ensures
        r@ == "sudo dnf install -y NetworkManager-openconnect NetworkManager-openconnect-gnome"@,
{
    "sudo dnf install -y NetworkManager-openconnect NetworkManager-openconnect-gnome"
}

/// An unselected catalogue item.
pub open spec fn cat_item(name: Seq<char>, payload: Seq<char>) -> NodeView {
    NodeView::Item { name, payload, selected: false }
}

/// A catalogue group with the given children, as arena indices.
pub open spec fn cat_menu(name: Seq<char>, children: Seq<usize>) -> NodeView {
    NodeView::Menu { name, children }
}

/// The display name of the CodeReady Builder repository item, which is
/// the one catalogue entry that depends on the distribution.
pub open spec fn crb_item_name(os: OsDistribution) -> Seq<char> {
    if os == OsDistribution::Rhel {
        "CodeReady Builder"@
    } else {
        "CRB"@
    }
}

/// The whole static catalogue for a distribution, node for node in arena
/// order: children precede their group, the root group sits last.
pub open spec fn spec_catalog(os: OsDistribution) -> Seq<NodeView> {
    seq![
        cat_item("Minimal Installation"@, "sudo dnf install -y gdm gnome-browser-connector\nsudo systemctl set-default graphical.target"@),
        cat_item("Full Installation"@, "sudo dnf groupinstall -y 'Workstation'\nsudo systemctl set-default graphical.target"@),
        cat_menu("Environment Installation"@, seq![0usize, 1]),
        cat_menu("Tiling WM"@, Seq::empty()),
        cat_menu("Top Bar"@, Seq::empty()),
        cat_menu("Desktop Functions"@, Seq::empty()),
        cat_menu("Search"@, Seq::empty()),
        cat_menu("Extensions"@, seq![3usize, 4, 5, 6]),
        cat_menu("Customization"@, seq![7usize]),
        cat_menu("Gnome DE"@, seq![2usize, 8]),
        cat_item("Compile from Source"@, "# This is a complex process and requires many dependencies.\n# This script is a placeholder for the required commands.\nsudo dnf install -y ninja-build meson gcc wayland-devel wayland-protocols-devel libinput-devel libxcb-devel libxkbcommon-devel pixman-devel"@),
        cat_menu("Environment Installation"@, seq![10usize]),
        cat_item("Wofi"@, "sudo dnf install -y wofi"@),
        cat_menu("Customization"@, seq![12usize]),
        cat_menu("Sway WM"@, seq![11usize, 13]),
        cat_menu("Graphical Environments"@, seq![9usize, 14]),
        cat_item("CEPH"@, "sudo dnf install -y ceph-common"@),
        cat_item(crb_item_name(os), "sudo dnf config-manager --set-enabled codeready-builder-for-rhel-10-rhui-rpms || sudo dnf config-manager --set-enabled crb"@),
        cat_item("EPEL"@, "sudo dnf install -y epel-release"@),
        cat_item("Flathub"@, "sudo flatpak remote-add --if-not-exists flathub https://flathub.org/repo/flathub.flatpakrepo"@),
        cat_item("Real-Time (RT)"@, "sudo dnf config-manager --set-enabled rt"@),
        cat_item("High Availability (HA)"@, "sudo dnf config-manager --set-enabled ha"@),
        cat_menu("Add Repositories"@, seq![16usize, 17, 18, 19, 20, 21]),
        cat_menu("Repositories"@, seq![22usize]),
        cat_item("KVM (Core & Tools)"@, "sudo dnf install -y @virtualization\nsudo systemctl enable --now libvirtd"@),
        cat_item("Minimal Install"@, "sudo dnf install -y cockpit\nsudo systemctl enable --now cockpit.socket\nsudo firewall-cmd --add-service=cockpit --permanent\nsudo firewall-cmd --reload"@),
        cat_item("Full Install (with Machines)"@, "sudo dnf install -y cockpit cockpit-machines\nsudo systemctl enable --now cockpit.socket\nsudo firewall-cmd --add-service=cockpit --permanent\nsudo firewall-cmd --reload"@),
        cat_menu("Cockpit"@, seq![25usize, 26]),
        cat_menu("Virtualization"@, seq![24usize, 27]),
        cat_item("OpenVPN"@, "sudo dnf install -y NetworkManager-openvpn NetworkManager-openvpn-gnome"@),
        cat_item("OpenConnect"@, "sudo dnf install -y NetworkManager-openconnect NetworkManager-openconnect-gnome"@),
        cat_item("L2TP"@, "sudo dnf install -y NetworkManager-l2tp NetworkManager-l2tp-gnome"@),
        cat_item("LibreSwan"@, "sudo dnf install -y NetworkManager-libreswan NetworkManager-libreswan-gnome"@),
        cat_item("StrongSwan"@, "sudo dnf install -y strongswan strongswan-charon-nm"@),
        cat_item("PPTP"@, "sudo dnf install -y NetworkManager-pptp NetworkManager-pptp-gnome"@),
        cat_menu("NetworkManager"@, seq![29usize, 30, 31, 32, 33, 34]),
        cat_menu("KVM (libvirt networks)"@, Seq::empty()),
        cat_menu("Networking"@, seq![35usize, 36]),
        cat_menu("Hardening"@, Seq::empty()),
        cat_menu("Main Menu"@, seq![15usize, 23, 28, 37, 38]),
    ]
}

/// Appends a fresh, unselected item to the arena and returns its index.
fn push_item(nodes: &mut Vec<MenuNode>, name: &'static str, payload: &'static str) -> (idx: usize)
    ensures
        final(nodes)@.map_values(|n: MenuNode| n@) == old(nodes)@.map_values(|n: MenuNode| n@).push(
            NodeView::Item { name: name@, payload: payload@, selected: false },
        ),
        idx == old(nodes)@.len(),
        final(nodes)@.len() == old(nodes)@.len() + 1,
        arena_wf(old(nodes)@.map_values(|n: MenuNode| n@)) ==> arena_wf(
            final(nodes)@.map_values(|n: MenuNode| n@),
        ),
        no_selection(old(nodes)@.map_values(|n: MenuNode| n@)) ==> no_selection(
            final(nodes)@.map_values(|n: MenuNode| n@),
        ),
{
    let idx = nodes.len();
    nodes.push(MenuNode::Item { name: name.to_owned(), payload: payload.to_owned(), selected: false });
    proof {
        let ghost old_ns = old(nodes)@.map_values(|n: MenuNode| n@);
        let ghost new_ns = final(nodes)@.map_values(|n: MenuNode| n@);
        assert(new_ns =~= old_ns.push(
            NodeView::Item { name: name@, payload: payload@, selected: false },
        ));
        if arena_wf(old_ns) {
            assert forall|i: int| 0 <= i < new_ns.len() implies #[trigger] node_wf(new_ns, i) by {
                if i < old_ns.len() {
                    assert(node_wf(old_ns, i));
                }
            }
        }
    }
    idx
}

/// Appends a group whose children are the given arena indices, all of
/// which must already be in the arena, and returns its index.
fn push_menu(nodes: &mut Vec<MenuNode>, name: &'static str, children: Vec<usize>) -> (idx: usize)
    requires
        children_below(children@, old(nodes)@.len() as int),
    ensures
        final(nodes)@.map_values(|n: MenuNode| n@) == old(nodes)@.map_values(|n: MenuNode| n@).push(
            NodeView::Menu { name: name@, children: children@ },
        ),
        idx == old(nodes)@.len(),
        final(nodes)@.len() == old(nodes)@.len() + 1,
        arena_wf(old(nodes)@.map_values(|n: MenuNode| n@)) ==> arena_wf(
            final(nodes)@.map_values(|n: MenuNode| n@),
        ),
        no_selection(old(nodes)@.map_values(|n: MenuNode| n@)) ==> no_selection(
            final(nodes)@.map_values(|n: MenuNode| n@),
        ),
{
    let idx = nodes.len();
    nodes.push(MenuNode::Menu { name: name.to_owned(), children });
    proof {
        let ghost old_ns = old(nodes)@.map_values(|n: MenuNode| n@);
        let ghost new_ns = final(nodes)@.map_values(|n: MenuNode| n@);
        assert(new_ns =~= old_ns.push(NodeView::Menu { name: name@, children: children@ }));
        if arena_wf(old_ns) {
            assert forall|i: int| 0 <= i < new_ns.len() implies #[trigger] node_wf(new_ns, i) by {
                if i < old_ns.len() {
                    assert(node_wf(old_ns, i));
                }
            }
        }
    }
    idx
}

/// Builds the static catalogue for the given distribution: graphical
/// environments, repositories, virtualization, networking and hardening,
/// with every item initially unselected.
#[verifier::rlimit(100)]
pub fn build_menu_tree(os: OsDistribution) -> (t: MenuTree)
    ensures
        t.wf(),
        no_selection(t@),
        t@ == spec_catalog(os),
        t.root as int == spec_catalog(os).len() - 1,
{
    let mut nodes: Vec<MenuNode> = Vec::new();

    let gnome_min = push_item(&mut nodes, "Minimal Installation", minimal_install());
    let gnome_full = push_item(&mut nodes, "Full Installation", full_install());
    let gnome_env = push_menu(&mut nodes, "Environment Installation", vec![gnome_min, gnome_full]);
    let ext_tiling = push_menu(&mut nodes, "Tiling WM", Vec::new());
    let ext_topbar = push_menu(&mut nodes, "Top Bar", Vec::new());
    let ext_desktop = push_menu(&mut nodes, "Desktop Functions", Vec::new());
    let ext_search = push_menu(&mut nodes, "Search", Vec::new());
    let gnome_ext = push_menu(
        &mut nodes,
        "Extensions",
        vec![ext_tiling, ext_topbar, ext_desktop, ext_search],
    );
    let gnome_custom = push_menu(&mut nodes, "Customization", vec![gnome_ext]);
    let gnome = push_menu(&mut nodes, "Gnome DE", vec![gnome_env, gnome_custom]);

    let sway_src = push_item(&mut nodes, "Compile from Source", compile_from_source());
    let sway_env = push_menu(&mut nodes, "Environment Installation", vec![sway_src]);
    let sway_wofi = push_item(&mut nodes, "Wofi", install_wofi());
    let sway_custom = push_menu(&mut nodes, "Customization", vec![sway_wofi]);
    let sway = push_menu(&mut nodes, "Sway WM", vec![sway_env, sway_custom]);
    let graphical = push_menu(&mut nodes, "Graphical Environments", vec![gnome, sway]);

    let repo_ceph = push_item(&mut nodes, "CEPH", add_ceph());
    let crb_name: &'static str = if os == OsDistribution::Rhel {
        "CodeReady Builder"
    } else {
        "CRB"
    };
    let repo_crb = push_item(&mut nodes, crb_name, add_crb());
    let repo_epel = push_item(&mut nodes, "EPEL", add_epel());
    let repo_flathub = push_item(&mut nodes, "Flathub", add_flathub());
    let repo_rt = push_item(&mut nodes, "Real-Time (RT)", add_rt());
    let repo_ha = push_item(&mut nodes, "High Availability (HA)", add_ha());
    let repo_add = push_menu(
        &mut nodes,
        "Add Repositories",
        vec![repo_ceph, repo_crb, repo_epel, repo_flathub, repo_rt, repo_ha],
    );
    let repos = push_menu(&mut nodes, "Repositories", vec![repo_add]);

    let virt_kvm = push_item(&mut nodes, "KVM (Core & Tools)", install_kvm());
    let cockpit_min = push_item(&mut nodes, "Minimal Install", install_cockpit_minimal());
    let cockpit_full = push_item(&mut nodes, "Full Install (with Machines)", install_cockpit_full());
    let cockpit = push_menu(&mut nodes, "Cockpit", vec![cockpit_min, cockpit_full]);
    let virt = push_menu(&mut nodes, "Virtualization", vec![virt_kvm, cockpit]);

    let vpn_ovpn = push_item(&mut nodes, "OpenVPN", install_vpn_ovpn());
    let vpn_oconn = push_item(&mut nodes, "OpenConnect", install_vpn_oconn());
    let vpn_l2tp = push_item(&mut nodes, "L2TP", install_vpn_l2tp());
    let vpn_lswan = push_item(&mut nodes, "LibreSwan", install_vpn_lswan());
    let vpn_sswan = push_item(&mut nodes, "StrongSwan", install_vpn_sswan());
    let vpn_pptp = push_item(&mut nodes, "PPTP", install_vpn_pptp());
    let net_nm = push_menu(
        &mut nodes,
        "NetworkManager",
        vec![vpn_ovpn, vpn_oconn, vpn_l2tp, vpn_lswan, vpn_sswan, vpn_pptp],
    );
    let net_kvm = push_menu(&mut nodes, "KVM (libvirt networks)", Vec::new());
    let networking = push_menu(&mut nodes, "Networking", vec![net_nm, net_kvm]);

    let hardening = push_menu(&mut nodes, "Hardening", Vec::new());

    let root = push_menu(
        &mut nodes,
        "Main Menu",
        vec![graphical, repos, virt, networking, hardening],
    );

    let t = MenuTree { nodes, root };
    proof {
        assert(t@.len() == 40);
        assert(spec_catalog(os).len() == 40);
        assert forall|i: int| 0 <= i < 40 implies t@[i] == spec_catalog(os)[i] by {
            assert(t@[i] == spec_catalog(os)[i]);
        }
        assert(t@ =~= spec_catalog(os));
    }
    t
}

/// Arena index of the EPEL repository item in the built catalogue.
pub open spec fn epel_index() -> int {
    18
}

/// Arena index of the CodeReady Builder repository item in the built
/// catalogue.
pub open spec fn crb_index() -> int {
    17
}

/// The arena differs from the fresh catalogue at most in the selection
/// flag at slot `i`.
pub open spec fn same_catalog_shape(ns: Seq<NodeView>, os: OsDistribution, i: int) -> bool {
    ns[i] == spec_catalog(os)[i] || ns[i] == spec_toggle(spec_catalog(os)[i])
}

// One evaluation lemma per catalogue group, children before parents: each
// unfolds the traversal across its own child list only, so no single proof
// outgrows the solver's budget.  They culminate in
// `lemma_catalog_traversal`, which the scenario lemmas below build on.
proof fn lemma_catalog_menu_2(ns: Seq<NodeView>, os: OsDistribution)
    requires
        arena_wf(ns),
        ns.len() == spec_catalog(os).len(),
        forall|i: int| 0 <= i < ns.len() ==> #[trigger] same_catalog_shape(ns, os, i),
    ensures
        selected_leaves(ns, 2) == leaf_contrib(ns, 0) + leaf_contrib(ns, 1),
{
    let cat = spec_catalog(os);
    assert(cat.len() == 40);
    assert(ns.len() == 40);
    assert(same_catalog_shape(ns, os, 2));
    assert(spec_toggle(cat[2]) == cat[2]);
    assert(ns[2] == (cat_menu("Environment Installation"@, seq![0usize, 1])));
    assert(same_catalog_shape(ns, os, 0));
    assert(cat[0] is Item);
    assert(ns[0] is Item);
    assert(selected_leaves(ns, 0) == leaf_contrib(ns, 0));
    assert(same_catalog_shape(ns, os, 1));
    assert(cat[1] is Item);
    assert(ns[1] is Item);
    assert(selected_leaves(ns, 1) == leaf_contrib(ns, 1));
    assert(children_below(Seq::<usize>::empty(), 2));
    assert(selected_leaves_list(ns, Seq::<usize>::empty(), 2) == Seq::<NodeView>::empty());
    assert(children_below(seq![1usize], 2));
    assert((seq![1usize]).drop_first() =~= Seq::<usize>::empty());
    assert(selected_leaves_list(ns, seq![1usize], 2) == selected_leaves(ns, 1) + selected_leaves_list(ns, Seq::<usize>::empty(), 2));
    assert(children_below(seq![0usize, 1], 2));
    assert((seq![0usize, 1]).drop_first() =~= seq![1usize]);
    assert(selected_leaves_list(ns, seq![0usize, 1], 2) == selected_leaves(ns, 0) + selected_leaves_list(ns, seq![1usize], 2));
    assert(selected_leaves(ns, 2) == selected_leaves_list(ns, seq![0usize, 1], 2));
    assert(selected_leaves(ns, 2) =~= leaf_contrib(ns, 0) + leaf_contrib(ns, 1));
}

proof fn lemma_catalog_menu_3(ns: Seq<NodeView>, os: OsDistribution)
    requires
        arena_wf(ns),
        ns.len() == spec_catalog(os).len(),
        forall|i: int| 0 <= i < ns.len() ==> #[trigger] same_catalog_shape(ns, os, i),
    ensures
        selected_leaves(ns, 3) == Seq::<NodeView>::empty(),
{
    let cat = spec_catalog(os);
    assert(cat.len() == 40);
    assert(ns.len() == 40);
    assert(same_catalog_shape(ns, os, 3));
    assert(spec_toggle(cat[3]) == cat[3]);
    assert(ns[3] == (cat_menu("Tiling WM"@, Seq::<usize>::empty())));
    assert(children_below(Seq::<usize>::empty(), 3));
    assert(selected_leaves_list(ns, Seq::<usize>::empty(), 3) == Seq::<NodeView>::empty());
    assert(selected_leaves(ns, 3) == selected_leaves_list(ns, Seq::<usize>::empty(), 3));
    assert(selected_leaves(ns, 3) =~= Seq::<NodeView>::empty());
}

proof fn lemma_catalog_menu_4(ns: Seq<NodeView>, os: OsDistribution)
    requires
        arena_wf(ns),
        ns.len() == spec_catalog(os).len(),
        forall|i: int| 0 <= i < ns.len() ==> #[trigger] same_catalog_shape(ns, os, i),
    ensures
        selected_leaves(ns, 4) == Seq::<NodeView>::empty(),
{
    let cat = spec_catalog(os);
    assert(cat.len() == 40);
    assert(ns.len() == 40);
    assert(same_catalog_shape(ns, os, 4));
    assert(spec_toggle(cat[4]) == cat[4]);
    assert(ns[4] == (cat_menu("Top Bar"@, Seq::<usize>::empty())));
    assert(children_below(Seq::<usize>::empty(), 4));
    assert(selected_leaves_list(ns, Seq::<usize>::empty(), 4) == Seq::<NodeView>::empty());
    assert(selected_leaves(ns, 4) == selected_leaves_list(ns, Seq::<usize>::empty(), 4));
    assert(selected_leaves(ns, 4) =~= Seq::<NodeView>::empty());
}

proof fn lemma_catalog_menu_5(ns: Seq<NodeView>, os: OsDistribution)
    requires
        arena_wf(ns),
        ns.len() == spec_catalog(os).len(),
        forall|i: int| 0 <= i < ns.len() ==> #[trigger] same_catalog_shape(ns, os, i),
    ensures
        selected_leaves(ns, 5) == Seq::<NodeView>::empty(),
{
    let cat = spec_catalog(os);
    assert(cat.len() == 40);
    assert(ns.len() == 40);
    assert(same_catalog_shape(ns, os, 5));
    assert(spec_toggle(cat[5]) == cat[5]);
    assert(ns[5] == (cat_menu("Desktop Functions"@, Seq::<usize>::empty())));
    assert(children_below(Seq::<usize>::empty(), 5));
    assert(selected_leaves_list(ns, Seq::<usize>::empty(), 5) == Seq::<NodeView>::empty());
    assert(selected_leaves(ns, 5) == selected_leaves_list(ns, Seq::<usize>::empty(), 5));
    assert(selected_leaves(ns, 5) =~= Seq::<NodeView>::empty());
}

proof fn lemma_catalog_menu_6(ns: Seq<NodeView>, os: OsDistribution)
    requires
        arena_wf(ns),
        ns.len() == spec_catalog(os).len(),
        forall|i: int| 0 <= i < ns.len() ==> #[trigger] same_catalog_shape(ns, os, i),
    ensures
        selected_leaves(ns, 6) == Seq::<NodeView>::empty(),
{
    let cat = spec_catalog(os);
    assert(cat.len() == 40);
    assert(ns.len() == 40);
    assert(same_catalog_shape(ns, os, 6));
    assert(spec_toggle(cat[6]) == cat[6]);
    assert(ns[6] == (cat_menu("Search"@, Seq::<usize>::empty())));
    assert(children_below(Seq::<usize>::empty(), 6));
    assert(selected_leaves_list(ns, Seq::<usize>::empty(), 6) == Seq::<NodeView>::empty());
    assert(selected_leaves(ns, 6) == selected_leaves_list(ns, Seq::<usize>::empty(), 6));
    assert(selected_leaves(ns, 6) =~= Seq::<NodeView>::empty());
}

proof fn lemma_catalog_menu_7(ns: Seq<NodeView>, os: OsDistribution)
    requires
        arena_wf(ns),
        ns.len() == spec_catalog(os).len(),
        forall|i: int| 0 <= i < ns.len() ==> #[trigger] same_catalog_shape(ns, os, i),
    ensures
        selected_leaves(ns, 7) == Seq::<NodeView>::empty(),
{
    let cat = spec_catalog(os);
    assert(cat.len() == 40);
    assert(ns.len() == 40);
    assert(same_catalog_shape(ns, os, 7));
    assert(spec_toggle(cat[7]) == cat[7]);
    assert(ns[7] == (cat_menu("Extensions"@, seq![3usize, 4, 5, 6])));
    lemma_catalog_menu_3(ns, os);
    lemma_catalog_menu_4(ns, os);
    lemma_catalog_menu_5(ns, os);
    lemma_catalog_menu_6(ns, os);
    assert(children_below(Seq::<usize>::empty(), 7));
    assert(selected_leaves_list(ns, Seq::<usize>::empty(), 7) == Seq::<NodeView>::empty());
    assert(children_below(seq![6usize], 7));
    assert((seq![6usize]).drop_first() =~= Seq::<usize>::empty());
    assert(selected_leaves_list(ns, seq![6usize], 7) == selected_leaves(ns, 6) + selected_leaves_list(ns, Seq::<usize>::empty(), 7));
    assert(children_below(seq![5usize, 6], 7));
    assert((seq![5usize, 6]).drop_first() =~= seq![6usize]);
    assert(selected_leaves_list(ns, seq![5usize, 6], 7) == selected_leaves(ns, 5) + selected_leaves_list(ns, seq![6usize], 7));
    assert(children_below(seq![4usize, 5, 6], 7));
    assert((seq![4usize, 5, 6]).drop_first() =~= seq![5usize, 6]);
    assert(selected_leaves_list(ns, seq![4usize, 5, 6], 7) == selected_leaves(ns, 4) + selected_leaves_list(ns, seq![5usize, 6], 7));
    assert(children_below(seq![3usize, 4, 5, 6], 7));
    assert((seq![3usize, 4, 5, 6]).drop_first() =~= seq![4usize, 5, 6]);
    assert(selected_leaves_list(ns, seq![3usize, 4, 5, 6], 7) == selected_leaves(ns, 3) + selected_leaves_list(ns, seq![4usize, 5, 6], 7));
    assert(selected_leaves(ns, 7) == selected_leaves_list(ns, seq![3usize, 4, 5, 6], 7));
    assert(selected_leaves(ns, 7) =~= Seq::<NodeView>::empty());
}

proof fn lemma_catalog_menu_8(ns: Seq<NodeView>, os: OsDistribution)
    requires
        arena_wf(ns),
        ns.len() == spec_catalog(os).len(),
        forall|i: int| 0 <= i < ns.len() ==> #[trigger] same_catalog_shape(ns, os, i),
    ensures
        selected_leaves(ns, 8) == Seq::<NodeView>::empty(),
{
    let cat = spec_catalog(os);
    assert(cat.len() == 40);
    assert(ns.len() == 40);
    assert(same_catalog_shape(ns, os, 8));
    assert(spec_toggle(cat[8]) == cat[8]);
    assert(ns[8] == (cat_menu("Customization"@, seq![7usize])));
    lemma_catalog_menu_7(ns, os);
    assert(children_below(Seq::<usize>::empty(), 8));
    assert(selected_leaves_list(ns, Seq::<usize>::empty(), 8) == Seq::<NodeView>::empty());
    assert(children_below(seq![7usize], 8));
    assert((seq![7usize]).drop_first() =~= Seq::<usize>::empty());
    assert(selected_leaves_list(ns, seq![7usize], 8) == selected_leaves(ns, 7) + selected_leaves_list(ns, Seq::<usize>::empty(), 8));
    assert(selected_leaves(ns, 8) == selected_leaves_list(ns, seq![7usize], 8));
    assert(selected_leaves(ns, 8) =~= Seq::<NodeView>::empty());
}

proof fn lemma_catalog_menu_9(ns: Seq<NodeView>, os: OsDistribution)
    requires
        arena_wf(ns),
        ns.len() == spec_catalog(os).len(),
        forall|i: int| 0 <= i < ns.len() ==> #[trigger] same_catalog_shape(ns, os, i),
    ensures
        selected_leaves(ns, 9) == leaf_contrib(ns, 0) + leaf_contrib(ns, 1),
{
    let cat = spec_catalog(os);
    assert(cat.len() == 40);
    assert(ns.len() == 40);
    assert(same_catalog_shape(ns, os, 9));
    assert(spec_toggle(cat[9]) == cat[9]);
    assert(ns[9] == (cat_menu("Gnome DE"@, seq![2usize, 8])));
    lemma_catalog_menu_2(ns, os);
    lemma_catalog_menu_8(ns, os);
    assert(children_below(Seq::<usize>::empty(), 9));
    assert(selected_leaves_list(ns, Seq::<usize>::empty(), 9) == Seq::<NodeView>::empty());
    assert(children_below(seq![8usize], 9));
    assert((seq![8usize]).drop_first() =~= Seq::<usize>::empty());
    assert(selected_leaves_list(ns, seq![8usize], 9) == selected_leaves(ns, 8) + selected_leaves_list(ns, Seq::<usize>::empty(), 9));
    assert(children_below(seq![2usize, 8], 9));
    assert((seq![2usize, 8]).drop_first() =~= seq![8usize]);
    assert(selected_leaves_list(ns, seq![2usize, 8], 9) == selected_leaves(ns, 2) + selected_leaves_list(ns, seq![8usize], 9));
    assert(selected_leaves(ns, 9) == selected_leaves_list(ns, seq![2usize, 8], 9));
    assert(selected_leaves(ns, 9) =~= leaf_contrib(ns, 0) + leaf_contrib(ns, 1));
}

proof fn lemma_catalog_menu_11(ns: Seq<NodeView>, os: OsDistribution)
    requires
        arena_wf(ns),
        ns.len() == spec_catalog(os).len(),
        forall|i: int| 0 <= i < ns.len() ==> #[trigger] same_catalog_shape(ns, os, i),
    ensures
        selected_leaves(ns, 11) == leaf_contrib(ns, 10),
{
    let cat = spec_catalog(os);
    assert(cat.len() == 40);
    assert(ns.len() == 40);
    assert(same_catalog_shape(ns, os, 11));
    assert(spec_toggle(cat[11]) == cat[11]);
    assert(ns[11] == (cat_menu("Environment Installation"@, seq![10usize])));
    assert(same_catalog_shape(ns, os, 10));
    assert(cat[10] is Item);
    assert(ns[10] is Item);
    assert(selected_leaves(ns, 10) == leaf_contrib(ns, 10));
    assert(children_below(Seq::<usize>::empty(), 11));
    assert(selected_leaves_list(ns, Seq::<usize>::empty(), 11) == Seq::<NodeView>::empty());
    assert(children_below(seq![10usize], 11));
    assert((seq![10usize]).drop_first() =~= Seq::<usize>::empty());
    assert(selected_leaves_list(ns, seq![10usize], 11) == selected_leaves(ns, 10) + selected_leaves_list(ns, Seq::<usize>::empty(), 11));
    assert(selected_leaves(ns, 11) == selected_leaves_list(ns, seq![10usize], 11));
    assert(selected_leaves(ns, 11) =~= leaf_contrib(ns, 10));
}

proof fn lemma_catalog_menu_13(ns: Seq<NodeView>, os: OsDistribution)
    requires
        arena_wf(ns),
        ns.len() == spec_catalog(os).len(),
        forall|i: int| 0 <= i < ns.len() ==> #[trigger] same_catalog_shape(ns, os, i),
    ensures
        selected_leaves(ns, 13) == leaf_contrib(ns, 12),
{
    let cat = spec_catalog(os);
    assert(cat.len() == 40);
    assert(ns.len() == 40);
    assert(same_catalog_shape(ns, os, 13));
    assert(spec_toggle(cat[13]) == cat[13]);
    assert(ns[13] == (cat_menu("Customization"@, seq![12usize])));
    assert(same_catalog_shape(ns, os, 12));
    assert(cat[12] is Item);
    assert(ns[12] is Item);
    assert(selected_leaves(ns, 12) == leaf_contrib(ns, 12));
    assert(children_below(Seq::<usize>::empty(), 13));
    assert(selected_leaves_list(ns, Seq::<usize>::empty(), 13) == Seq::<NodeView>::empty());
    assert(children_below(seq![12usize], 13));
    assert((seq![12usize]).drop_first() =~= Seq::<usize>::empty());
    assert(selected_leaves_list(ns, seq![12usize], 13) == selected_leaves(ns, 12) + selected_leaves_list(ns, Seq::<usize>::empty(), 13));
    assert(selected_leaves(ns, 13) == selected_leaves_list(ns, seq![12usize], 13));
    assert(selected_leaves(ns, 13) =~= leaf_contrib(ns, 12));
}

proof fn lemma_catalog_menu_14(ns: Seq<NodeView>, os: OsDistribution)
    requires
        arena_wf(ns),
        ns.len() == spec_catalog(os).len(),
        forall|i: int| 0 <= i < ns.len() ==> #[trigger] same_catalog_shape(ns, os, i),
    ensures
        selected_leaves(ns, 14) == leaf_contrib(ns, 10) + leaf_contrib(ns, 12),
{
    let cat = spec_catalog(os);
    assert(cat.len() == 40);
    assert(ns.len() == 40);
    assert(same_catalog_shape(ns, os, 14));
    assert(spec_toggle(cat[14]) == cat[14]);
    assert(ns[14] == (cat_menu("Sway WM"@, seq![11usize, 13])));
    lemma_catalog_menu_11(ns, os);
    lemma_catalog_menu_13(ns, os);
    assert(children_below(Seq::<usize>::empty(), 14));
    assert(selected_leaves_list(ns, Seq::<usize>::empty(), 14) == Seq::<NodeView>::empty());
    assert(children_below(seq![13usize], 14));
    assert((seq![13usize]).drop_first() =~= Seq::<usize>::empty());
    assert(selected_leaves_list(ns, seq![13usize], 14) == selected_leaves(ns, 13) + selected_leaves_list(ns, Seq::<usize>::empty(), 14));
    assert(children_below(seq![11usize, 13], 14));
    assert((seq![11usize, 13]).drop_first() =~= seq![13usize]);
    assert(selected_leaves_list(ns, seq![11usize, 13], 14) == selected_leaves(ns, 11) + selected_leaves_list(ns, seq![13usize], 14));
    assert(selected_leaves(ns, 14) == selected_leaves_list(ns, seq![11usize, 13], 14));
    assert(selected_leaves(ns, 14) =~= leaf_contrib(ns, 10) + leaf_contrib(ns, 12));
}

proof fn lemma_catalog_menu_15(ns: Seq<NodeView>, os: OsDistribution)
    requires
        arena_wf(ns),
        ns.len() == spec_catalog(os).len(),
        forall|i: int| 0 <= i < ns.len() ==> #[trigger] same_catalog_shape(ns, os, i),
    ensures
        selected_leaves(ns, 15) == leaf_contrib(ns, 0) + leaf_contrib(ns, 1) + leaf_contrib(ns, 10) + leaf_contrib(ns, 12),
{
    let cat = spec_catalog(os);
    assert(cat.len() == 40);
    assert(ns.len() == 40);
    assert(same_catalog_shape(ns, os, 15));
    assert(spec_toggle(cat[15]) == cat[15]);
    assert(ns[15] == (cat_menu("Graphical Environments"@, seq![9usize, 14])));
    lemma_catalog_menu_9(ns, os);
    lemma_catalog_menu_14(ns, os);
    assert(children_below(Seq::<usize>::empty(), 15));
    assert(selected_leaves_list(ns, Seq::<usize>::empty(), 15) == Seq::<NodeView>::empty());
    assert(children_below(seq![14usize], 15));
    assert((seq![14usize]).drop_first() =~= Seq::<usize>::empty());
    assert(selected_leaves_list(ns, seq![14usize], 15) == selected_leaves(ns, 14) + selected_leaves_list(ns, Seq::<usize>::empty(), 15));
    assert(children_below(seq![9usize, 14], 15));
    assert((seq![9usize, 14]).drop_first() =~= seq![14usize]);
    assert(selected_leaves_list(ns, seq![9usize, 14], 15) == selected_leaves(ns, 9) + selected_leaves_list(ns, seq![14usize], 15));
    assert(selected_leaves(ns, 15) == selected_leaves_list(ns, seq![9usize, 14], 15));
    assert(selected_leaves(ns, 15) =~= leaf_contrib(ns, 0) + leaf_contrib(ns, 1) + leaf_contrib(ns, 10) + leaf_contrib(ns, 12));
}

#[verifier::rlimit(100)]
proof fn lemma_catalog_menu_22(ns: Seq<NodeView>, os: OsDistribution)
    requires
        arena_wf(ns),
        ns.len() == spec_catalog(os).len(),
        forall|i: int| 0 <= i < ns.len() ==> #[trigger] same_catalog_shape(ns, os, i),
    ensures
        selected_leaves(ns, 22) == leaf_contrib(ns, 16) + leaf_contrib(ns, 17) + leaf_contrib(ns, 18) + leaf_contrib(ns, 19) + leaf_contrib(ns, 20) + leaf_contrib(ns, 21),
{
    let cat = spec_catalog(os);
    assert(cat.len() == 40);
    assert(ns.len() == 40);
    assert(same_catalog_shape(ns, os, 22));
    assert(spec_toggle(cat[22]) == cat[22]);
    assert(ns[22] == (cat_menu("Add Repositories"@, seq![16usize, 17, 18, 19, 20, 21])));
    assert(same_catalog_shape(ns, os, 16));
    assert(cat[16] is Item);
    assert(ns[16] is Item);
    assert(selected_leaves(ns, 16) == leaf_contrib(ns, 16));
    assert(same_catalog_shape(ns, os, 17));
    assert(cat[17] is Item);
    assert(ns[17] is Item);
    assert(selected_leaves(ns, 17) == leaf_contrib(ns, 17));
    assert(same_catalog_shape(ns, os, 18));
    assert(cat[18] is Item);
    assert(ns[18] is Item);
    assert(selected_leaves(ns, 18) == leaf_contrib(ns, 18));
    assert(same_catalog_shape(ns, os, 19));
    assert(cat[19] is Item);
    assert(ns[19] is Item);
    assert(selected_leaves(ns, 19) == leaf_contrib(ns, 19));
    assert(same_catalog_shape(ns, os, 20));
    assert(cat[20] is Item);
    assert(ns[20] is Item);
    assert(selected_leaves(ns, 20) == leaf_contrib(ns, 20));
    assert(same_catalog_shape(ns, os, 21));
    assert(cat[21] is Item);
    assert(ns[21] is Item);
    assert(selected_leaves(ns, 21) == leaf_contrib(ns, 21));
    assert(children_below(Seq::<usize>::empty(), 22));
    assert(selected_leaves_list(ns, Seq::<usize>::empty(), 22) == Seq::<NodeView>::empty());
    assert(children_below(seq![21usize], 22));
    assert((seq![21usize]).drop_first() =~= Seq::<usize>::empty());
    assert(selected_leaves_list(ns, seq![21usize], 22) == selected_leaves(ns, 21) + selected_leaves_list(ns, Seq::<usize>::empty(), 22));
    assert(children_below(seq![20usize, 21], 22));
    assert((seq![20usize, 21]).drop_first() =~= seq![21usize]);
    assert(selected_leaves_list(ns, seq![20usize, 21], 22) == selected_leaves(ns, 20) + selected_leaves_list(ns, seq![21usize], 22));
    assert(children_below(seq![19usize, 20, 21], 22));
    assert((seq![19usize, 20, 21]).drop_first() =~= seq![20usize, 21]);
    assert(selected_leaves_list(ns, seq![19usize, 20, 21], 22) == selected_leaves(ns, 19) + selected_leaves_list(ns, seq![20usize, 21], 22));
    assert(children_below(seq![18usize, 19, 20, 21], 22));
    assert((seq![18usize, 19, 20, 21]).drop_first() =~= seq![19usize, 20, 21]);
    assert(selected_leaves_list(ns, seq![18usize, 19, 20, 21], 22) == selected_leaves(ns, 18) + selected_leaves_list(ns, seq![19usize, 20, 21], 22));
    assert(children_below(seq![17usize, 18, 19, 20, 21], 22));
    assert((seq![17usize, 18, 19, 20, 21]).drop_first() =~= seq![18usize, 19, 20, 21]);
    assert(selected_leaves_list(ns, seq![17usize, 18, 19, 20, 21], 22) == selected_leaves(ns, 17) + selected_leaves_list(ns, seq![18usize, 19, 20, 21], 22));
    assert(children_below(seq![16usize, 17, 18, 19, 20, 21], 22));
    assert((seq![16usize, 17, 18, 19, 20, 21]).drop_first() =~= seq![17usize, 18, 19, 20, 21]);
    assert(selected_leaves_list(ns, seq![16usize, 17, 18, 19, 20, 21], 22) == selected_leaves(ns, 16) + selected_leaves_list(ns, seq![17usize, 18, 19, 20, 21], 22));
    assert(selected_leaves(ns, 22) == selected_leaves_list(ns, seq![16usize, 17, 18, 19, 20, 21], 22));
    assert(selected_leaves(ns, 22) =~= leaf_contrib(ns, 16) + leaf_contrib(ns, 17) + leaf_contrib(ns, 18) + leaf_contrib(ns, 19) + leaf_contrib(ns, 20) + leaf_contrib(ns, 21));
}

proof fn lemma_catalog_menu_23(ns: Seq<NodeView>, os: OsDistribution)
    requires
        arena_wf(ns),
        ns.len() == spec_catalog(os).len(),
        forall|i: int| 0 <= i < ns.len() ==> #[trigger] same_catalog_shape(ns, os, i),
    ensures
        selected_leaves(ns, 23) == leaf_contrib(ns, 16) + leaf_contrib(ns, 17) + leaf_contrib(ns, 18) + leaf_contrib(ns, 19) + leaf_contrib(ns, 20) + leaf_contrib(ns, 21),
{
    let cat = spec_catalog(os);
    assert(cat.len() == 40);
    assert(ns.len() == 40);
    assert(same_catalog_shape(ns, os, 23));
    assert(spec_toggle(cat[23]) == cat[23]);
    assert(ns[23] == (cat_menu("Repositories"@, seq![22usize])));
    lemma_catalog_menu_22(ns, os);
    assert(children_below(Seq::<usize>::empty(), 23));
    assert(selected_leaves_list(ns, Seq::<usize>::empty(), 23) == Seq::<NodeView>::empty());
    assert(children_below(seq![22usize], 23));
    assert((seq![22usize]).drop_first() =~= Seq::<usize>::empty());
    assert(selected_leaves_list(ns, seq![22usize], 23) == selected_leaves(ns, 22) + selected_leaves_list(ns, Seq::<usize>::empty(), 23));
    assert(selected_leaves(ns, 23) == selected_leaves_list(ns, seq![22usize], 23));
    assert(selected_leaves(ns, 23) =~= leaf_contrib(ns, 16) + leaf_contrib(ns, 17) + leaf_contrib(ns, 18) + leaf_contrib(ns, 19) + leaf_contrib(ns, 20) + leaf_contrib(ns, 21));
}

proof fn lemma_catalog_menu_27(ns: Seq<NodeView>, os: OsDistribution)
    requires
        arena_wf(ns),
        ns.len() == spec_catalog(os).len(),
        forall|i: int| 0 <= i < ns.len() ==> #[trigger] same_catalog_shape(ns, os, i),
    ensures
        selected_leaves(ns, 27) == leaf_contrib(ns, 25) + leaf_contrib(ns, 26),
{
    let cat = spec_catalog(os);
    assert(cat.len() == 40);
    assert(ns.len() == 40);
    assert(same_catalog_shape(ns, os, 27));
    assert(spec_toggle(cat[27]) == cat[27]);
    assert(ns[27] == (cat_menu("Cockpit"@, seq![25usize, 26])));
    assert(same_catalog_shape(ns, os, 25));
    assert(cat[25] is Item);
    assert(ns[25] is Item);
    assert(selected_leaves(ns, 25) == leaf_contrib(ns, 25));
    assert(same_catalog_shape(ns, os, 26));
    assert(cat[26] is Item);
    assert(ns[26] is Item);
    assert(selected_leaves(ns, 26) == leaf_contrib(ns, 26));
    assert(children_below(Seq::<usize>::empty(), 27));
    assert(selected_leaves_list(ns, Seq::<usize>::empty(), 27) == Seq::<NodeView>::empty());
    assert(children_below(seq![26usize], 27));
    assert((seq![26usize]).drop_first() =~= Seq::<usize>::empty());
    assert(selected_leaves_list(ns, seq![26usize], 27) == selected_leaves(ns, 26) + selected_leaves_list(ns, Seq::<usize>::empty(), 27));
    assert(children_below(seq![25usize, 26], 27));
    assert((seq![25usize, 26]).drop_first() =~= seq![26usize]);
    assert(selected_leaves_list(ns, seq![25usize, 26], 27) == selected_leaves(ns, 25) + selected_leaves_list(ns, seq![26usize], 27));
    assert(selected_leaves(ns, 27) == selected_leaves_list(ns, seq![25usize, 26], 27));
    assert(selected_leaves(ns, 27) =~= leaf_contrib(ns, 25) + leaf_contrib(ns, 26));
}

proof fn lemma_catalog_menu_28(ns: Seq<NodeView>, os: OsDistribution)
    requires
        arena_wf(ns),
        ns.len() == spec_catalog(os).len(),
        forall|i: int| 0 <= i < ns.len() ==> #[trigger] same_catalog_shape(ns, os, i),
    ensures
        selected_leaves(ns, 28) == leaf_contrib(ns, 24) + leaf_contrib(ns, 25) + leaf_contrib(ns, 26),
{
    let cat = spec_catalog(os);
    assert(cat.len() == 40);
    assert(ns.len() == 40);
    assert(same_catalog_shape(ns, os, 28));
    assert(spec_toggle(cat[28]) == cat[28]);
    assert(ns[28] == (cat_menu("Virtualization"@, seq![24usize, 27])));
    assert(same_catalog_shape(ns, os, 24));
    assert(cat[24] is Item);
    assert(ns[24] is Item);
    assert(selected_leaves(ns, 24) == leaf_contrib(ns, 24));
    lemma_catalog_menu_27(ns, os);
    assert(children_below(Seq::<usize>::empty(), 28));
    assert(selected_leaves_list(ns, Seq::<usize>::empty(), 28) == Seq::<NodeView>::empty());
    assert(children_below(seq![27usize], 28));
    assert((seq![27usize]).drop_first() =~= Seq::<usize>::empty());
    assert(selected_leaves_list(ns, seq![27usize], 28) == selected_leaves(ns, 27) + selected_leaves_list(ns, Seq::<usize>::empty(), 28));
    assert(children_below(seq![24usize, 27], 28));
    assert((seq![24usize, 27]).drop_first() =~= seq![27usize]);
    assert(selected_leaves_list(ns, seq![24usize, 27], 28) == selected_leaves(ns, 24) + selected_leaves_list(ns, seq![27usize], 28));
    assert(selected_leaves(ns, 28) == selected_leaves_list(ns, seq![24usize, 27], 28));
    assert(selected_leaves(ns, 28) =~= leaf_contrib(ns, 24) + leaf_contrib(ns, 25) + leaf_contrib(ns, 26));
}

#[verifier::rlimit(100)]
proof fn lemma_catalog_menu_35(ns: Seq<NodeView>, os: OsDistribution)
    requires
        arena_wf(ns),
        ns.len() == spec_catalog(os).len(),
        forall|i: int| 0 <= i < ns.len() ==> #[trigger] same_catalog_shape(ns, os, i),
    ensures
        selected_leaves(ns, 35) == leaf_contrib(ns, 29) + leaf_contrib(ns, 30) + leaf_contrib(ns, 31) + leaf_contrib(ns, 32) + leaf_contrib(ns, 33) + leaf_contrib(ns, 34),
{
    let cat = spec_catalog(os);
    assert(cat.len() == 40);
    assert(ns.len() == 40);
    assert(same_catalog_shape(ns, os, 35));
    assert(spec_toggle(cat[35]) == cat[35]);
    assert(ns[35] == (cat_menu("NetworkManager"@, seq![29usize, 30, 31, 32, 33, 34])));
    assert(same_catalog_shape(ns, os, 29));
    assert(cat[29] is Item);
    assert(ns[29] is Item);
    assert(selected_leaves(ns, 29) == leaf_contrib(ns, 29));
    assert(same_catalog_shape(ns, os, 30));
    assert(cat[30] is Item);
    assert(ns[30] is Item);
    assert(selected_leaves(ns, 30) == leaf_contrib(ns, 30));
    assert(same_catalog_shape(ns, os, 31));
    assert(cat[31] is Item);
    assert(ns[31] is Item);
    assert(selected_leaves(ns, 31) == leaf_contrib(ns, 31));
    assert(same_catalog_shape(ns, os, 32));
    assert(cat[32] is Item);
    assert(ns[32] is Item);
    assert(selected_leaves(ns, 32) == leaf_contrib(ns, 32));
    assert(same_catalog_shape(ns, os, 33));
    assert(cat[33] is Item);
    assert(ns[33] is Item);
    assert(selected_leaves(ns, 33) == leaf_contrib(ns, 33));
    assert(same_catalog_shape(ns, os, 34));
    assert(cat[34] is Item);
    assert(ns[34] is Item);
    assert(selected_leaves(ns, 34) == leaf_contrib(ns, 34));
    assert(children_below(Seq::<usize>::empty(), 35));
    assert(selected_leaves_list(ns, Seq::<usize>::empty(), 35) == Seq::<NodeView>::empty());
    assert(children_below(seq![34usize], 35));
    assert((seq![34usize]).drop_first() =~= Seq::<usize>::empty());
    assert(selected_leaves_list(ns, seq![34usize], 35) == selected_leaves(ns, 34) + selected_leaves_list(ns, Seq::<usize>::empty(), 35));
    assert(children_below(seq![33usize, 34], 35));
    assert((seq![33usize, 34]).drop_first() =~= seq![34usize]);
    assert(selected_leaves_list(ns, seq![33usize, 34], 35) == selected_leaves(ns, 33) + selected_leaves_list(ns, seq![34usize], 35));
    assert(children_below(seq![32usize, 33, 34], 35));
    assert((seq![32usize, 33, 34]).drop_first() =~= seq![33usize, 34]);
    assert(selected_leaves_list(ns, seq![32usize, 33, 34], 35) == selected_leaves(ns, 32) + selected_leaves_list(ns, seq![33usize, 34], 35));
    assert(children_below(seq![31usize, 32, 33, 34], 35));
    assert((seq![31usize, 32, 33, 34]).drop_first() =~= seq![32usize, 33, 34]);
    assert(selected_leaves_list(ns, seq![31usize, 32, 33, 34], 35) == selected_leaves(ns, 31) + selected_leaves_list(ns, seq![32usize, 33, 34], 35));
    assert(children_below(seq![30usize, 31, 32, 33, 34], 35));
    assert((seq![30usize, 31, 32, 33, 34]).drop_first() =~= seq![31usize, 32, 33, 34]);
    assert(selected_leaves_list(ns, seq![30usize, 31, 32, 33, 34], 35) == selected_leaves(ns, 30) + selected_leaves_list(ns, seq![31usize, 32, 33, 34], 35));
    assert(children_below(seq![29usize, 30, 31, 32, 33, 34], 35));
    assert((seq![29usize, 30, 31, 32, 33, 34]).drop_first() =~= seq![30usize, 31, 32, 33, 34]);
    assert(selected_leaves_list(ns, seq![29usize, 30, 31, 32, 33, 34], 35) == selected_leaves(ns, 29) + selected_leaves_list(ns, seq![30usize, 31, 32, 33, 34], 35));
    assert(selected_leaves(ns, 35) == selected_leaves_list(ns, seq![29usize, 30, 31, 32, 33, 34], 35));
    assert(selected_leaves(ns, 35) =~= leaf_contrib(ns, 29) + leaf_contrib(ns, 30) + leaf_contrib(ns, 31) + leaf_contrib(ns, 32) + leaf_contrib(ns, 33) + leaf_contrib(ns, 34));
}

proof fn lemma_catalog_menu_36(ns: Seq<NodeView>, os: OsDistribution)
    requires
        arena_wf(ns),
        ns.len() == spec_catalog(os).len(),
        forall|i: int| 0 <= i < ns.len() ==> #[trigger] same_catalog_shape(ns, os, i),
    ensures
        selected_leaves(ns, 36) == Seq::<NodeView>::empty(),
{
    let cat = spec_catalog(os);
    assert(cat.len() == 40);
    assert(ns.len() == 40);
    assert(same_catalog_shape(ns, os, 36));
    assert(spec_toggle(cat[36]) == cat[36]);
    assert(ns[36] == (cat_menu("KVM (libvirt networks)"@, Seq::<usize>::empty())));
    assert(children_below(Seq::<usize>::empty(), 36));
    assert(selected_leaves_list(ns, Seq::<usize>::empty(), 36) == Seq::<NodeView>::empty());
    assert(selected_leaves(ns, 36) == selected_leaves_list(ns, Seq::<usize>::empty(), 36));
    assert(selected_leaves(ns, 36) =~= Seq::<NodeView>::empty());
}

proof fn lemma_catalog_menu_37(ns: Seq<NodeView>, os: OsDistribution)
    requires
        arena_wf(ns),
        ns.len() == spec_catalog(os).len(),
        forall|i: int| 0 <= i < ns.len() ==> #[trigger] same_catalog_shape(ns, os, i),
    ensures
        selected_leaves(ns, 37) == leaf_contrib(ns, 29) + leaf_contrib(ns, 30) + leaf_contrib(ns, 31) + leaf_contrib(ns, 32) + leaf_contrib(ns, 33) + leaf_contrib(ns, 34),
{
    let cat = spec_catalog(os);
    assert(cat.len() == 40);
    assert(ns.len() == 40);
    assert(same_catalog_shape(ns, os, 37));
    assert(spec_toggle(cat[37]) == cat[37]);
    assert(ns[37] == (cat_menu("Networking"@, seq![35usize, 36])));
    lemma_catalog_menu_35(ns, os);
    lemma_catalog_menu_36(ns, os);
    assert(children_below(Seq::<usize>::empty(), 37));
    assert(selected_leaves_list(ns, Seq::<usize>::empty(), 37) == Seq::<NodeView>::empty());
    assert(children_below(seq![36usize], 37));
    assert((seq![36usize]).drop_first() =~= Seq::<usize>::empty());
    assert(selected_leaves_list(ns, seq![36usize], 37) == selected_leaves(ns, 36) + selected_leaves_list(ns, Seq::<usize>::empty(), 37));
    assert(children_below(seq![35usize, 36], 37));
    assert((seq![35usize, 36]).drop_first() =~= seq![36usize]);
    assert(selected_leaves_list(ns, seq![35usize, 36], 37) == selected_leaves(ns, 35) + selected_leaves_list(ns, seq![36usize], 37));
    assert(selected_leaves(ns, 37) == selected_leaves_list(ns, seq![35usize, 36], 37));
    assert(selected_leaves(ns, 37) =~= leaf_contrib(ns, 29) + leaf_contrib(ns, 30) + leaf_contrib(ns, 31) + leaf_contrib(ns, 32) + leaf_contrib(ns, 33) + leaf_contrib(ns, 34));
}

proof fn lemma_catalog_menu_38(ns: Seq<NodeView>, os: OsDistribution)
    requires
        arena_wf(ns),
        ns.len() == spec_catalog(os).len(),
        forall|i: int| 0 <= i < ns.len() ==> #[trigger] same_catalog_shape(ns, os, i),
    ensures
        selected_leaves(ns, 38) == Seq::<NodeView>::empty(),
{
    let cat = spec_catalog(os);
    assert(cat.len() == 40);
    assert(ns.len() == 40);
    assert(same_catalog_shape(ns, os, 38));
    assert(spec_toggle(cat[38]) == cat[38]);
    assert(ns[38] == (cat_menu("Hardening"@, Seq::<usize>::empty())));
    assert(children_below(Seq::<usize>::empty(), 38));
    assert(selected_leaves_list(ns, Seq::<usize>::empty(), 38) == Seq::<NodeView>::empty());
    assert(selected_leaves(ns, 38) == selected_leaves_list(ns, Seq::<usize>::empty(), 38));
    assert(selected_leaves(ns, 38) =~= Seq::<NodeView>::empty());
}

/// Evaluates the selected-leaf traversal over any selection state of the
/// catalogue: each item contributes itself exactly when selected, in
/// catalogue pre-order; the groups contribute nothing.
#[verifier::rlimit(100)]
pub proof fn lemma_catalog_traversal(ns: Seq<NodeView>, os: OsDistribution)
    requires
        arena_wf(ns),
        ns.len() == spec_catalog(os).len(),
        forall|i: int| 0 <= i < ns.len() ==> #[trigger] same_catalog_shape(ns, os, i),
    ensures
        selected_leaves(ns, spec_catalog(os).len() - 1) == (leaf_contrib(ns, 0) + leaf_contrib(ns, 1) + leaf_contrib(ns, 10) + leaf_contrib(ns, 12)) + ((leaf_contrib(ns, 16) + leaf_contrib(ns, 17) + leaf_contrib(ns, 18) + leaf_contrib(ns, 19) + leaf_contrib(ns, 20) + leaf_contrib(ns, 21)) + ((leaf_contrib(ns, 24) + leaf_contrib(ns, 25) + leaf_contrib(ns, 26)) + ((leaf_contrib(ns, 29) + leaf_contrib(ns, 30) + leaf_contrib(ns, 31) + leaf_contrib(ns, 32) + leaf_contrib(ns, 33) + leaf_contrib(ns, 34)) + (Seq::<NodeView>::empty() + Seq::<NodeView>::empty())))),
{
    let cat = spec_catalog(os);
    assert(cat.len() == 40);
    assert(ns.len() == 40);
    assert(same_catalog_shape(ns, os, 39));
    assert(spec_toggle(cat[39]) == cat[39]);
    assert(ns[39] == (cat_menu("Main Menu"@, seq![15usize, 23, 28, 37, 38])));
    lemma_catalog_menu_15(ns, os);
    lemma_catalog_menu_23(ns, os);
    lemma_catalog_menu_28(ns, os);
    lemma_catalog_menu_37(ns, os);
    lemma_catalog_menu_38(ns, os);
    assert(children_below(Seq::<usize>::empty(), 39));
    assert(selected_leaves_list(ns, Seq::<usize>::empty(), 39) == Seq::<NodeView>::empty());
    assert(children_below(seq![38usize], 39));
    assert((seq![38usize]).drop_first() =~= Seq::<usize>::empty());
    assert(selected_leaves_list(ns, seq![38usize], 39) == selected_leaves(ns, 38) + selected_leaves_list(ns, Seq::<usize>::empty(), 39));
    assert(children_below(seq![37usize, 38], 39));
    assert((seq![37usize, 38]).drop_first() =~= seq![38usize]);
    assert(selected_leaves_list(ns, seq![37usize, 38], 39) == selected_leaves(ns, 37) + selected_leaves_list(ns, seq![38usize], 39));
    assert(children_below(seq![28usize, 37, 38], 39));
    assert((seq![28usize, 37, 38]).drop_first() =~= seq![37usize, 38]);
    assert(selected_leaves_list(ns, seq![28usize, 37, 38], 39) == selected_leaves(ns, 28) + selected_leaves_list(ns, seq![37usize, 38], 39));
    assert(children_below(seq![23usize, 28, 37, 38], 39));
    assert((seq![23usize, 28, 37, 38]).drop_first() =~= seq![28usize, 37, 38]);
    assert(selected_leaves_list(ns, seq![23usize, 28, 37, 38], 39) == selected_leaves(ns, 23) + selected_leaves_list(ns, seq![28usize, 37, 38], 39));
    assert(children_below(seq![15usize, 23, 28, 37, 38], 39));
    assert((seq![15usize, 23, 28, 37, 38]).drop_first() =~= seq![23usize, 28, 37, 38]);
    assert(selected_leaves_list(ns, seq![15usize, 23, 28, 37, 38], 39) == selected_leaves(ns, 15) + selected_leaves_list(ns, seq![23usize, 28, 37, 38], 39));
    assert(selected_leaves(ns, 39) == selected_leaves_list(ns, seq![15usize, 23, 28, 37, 38], 39));
    assert(selected_leaves(ns, 39) == (leaf_contrib(ns, 0) + leaf_contrib(ns, 1) + leaf_contrib(ns, 10) + leaf_contrib(ns, 12)) + ((leaf_contrib(ns, 16) + leaf_contrib(ns, 17) + leaf_contrib(ns, 18) + leaf_contrib(ns, 19) + leaf_contrib(ns, 20) + leaf_contrib(ns, 21)) + ((leaf_contrib(ns, 24) + leaf_contrib(ns, 25) + leaf_contrib(ns, 26)) + ((leaf_contrib(ns, 29) + leaf_contrib(ns, 30) + leaf_contrib(ns, 31) + leaf_contrib(ns, 32) + leaf_contrib(ns, 33) + leaf_contrib(ns, 34)) + (Seq::<NodeView>::empty() + Seq::<NodeView>::empty())))));
}

/// With exactly the EPEL repository item of the fresh catalogue selected
/// and no reboot asked for, the synthesized script is the header followed
/// by the EPEL install line alone: no other payload and no reboot tail.
#[verifier::rlimit(100)]
pub proof fn lemma_epel_only_script(ns: Seq<NodeView>, os: OsDistribution)
    requires
        arena_wf(ns),
        ns == spec_catalog(os).update(epel_index(), spec_toggle(spec_catalog(os)[epel_index()])),
    ensures
        spec_script(ns, spec_catalog(os).len() - 1, os, false) == spec_header(os) + "sudo dnf install -y epel-release"@ + "\n"@,
{
    let cat = spec_catalog(os);
    assert(cat.len() == 40);
    assert(ns.len() == 40);
    assert forall|i: int| 0 <= i < ns.len() implies #[trigger] same_catalog_shape(
        ns,
        os,
        i,
    ) by {
        if i != 18 {
            assert(ns[i] == cat[i]);
        } else {
            assert(ns[i] == spec_toggle(cat[i]));
        }
    }
    lemma_catalog_traversal(ns, os);
    assert(cat[0] == (cat_item("Minimal Installation"@, "sudo dnf install -y gdm gnome-browser-connector\nsudo systemctl set-default graphical.target"@)));
    assert(ns[0] == cat[0]);
    assert(leaf_contrib(ns, 0) == Seq::<NodeView>::empty());
    assert(cat[1] == (cat_item("Full Installation"@, "sudo dnf groupinstall -y 'Workstation'\nsudo systemctl set-default graphical.target"@)));
    assert(ns[1] == cat[1]);
    assert(leaf_contrib(ns, 1) == Seq::<NodeView>::empty());
    assert(cat[10] == (cat_item("Compile from Source"@, "# This is a complex process and requires many dependencies.\n# This script is a placeholder for the required commands.\nsudo dnf install -y ninja-build meson gcc wayland-devel wayland-protocols-devel libinput-devel libxcb-devel libxkbcommon-devel pixman-devel"@)));
    assert(ns[10] == cat[10]);
    assert(leaf_contrib(ns, 10) == Seq::<NodeView>::empty());
    assert(cat[12] == (cat_item("Wofi"@, "sudo dnf install -y wofi"@)));
    assert(ns[12] == cat[12]);
    assert(leaf_contrib(ns, 12) == Seq::<NodeView>::empty());
    assert(cat[16] == (cat_item("CEPH"@, "sudo dnf install -y ceph-common"@)));
    assert(ns[16] == cat[16]);
    assert(leaf_contrib(ns, 16) == Seq::<NodeView>::empty());
    assert(cat[17] == (cat_item(crb_item_name(os), "sudo dnf config-manager --set-enabled codeready-builder-for-rhel-10-rhui-rpms || sudo dnf config-manager --set-enabled crb"@)));
    assert(ns[17] == cat[17]);
    assert(leaf_contrib(ns, 17) == Seq::<NodeView>::empty());
    assert(cat[18] == (cat_item("EPEL"@, "sudo dnf install -y epel-release"@)));
    assert(ns[18] == spec_toggle(cat[18]));
    assert(leaf_contrib(ns, 18) == seq![ns[18]]);
    assert(cat[19] == (cat_item("Flathub"@, "sudo flatpak remote-add --if-not-exists flathub https://flathub.org/repo/flathub.flatpakrepo"@)));
    assert(ns[19] == cat[19]);
    assert(leaf_contrib(ns, 19) == Seq::<NodeView>::empty());
    assert(cat[20] == (cat_item("Real-Time (RT)"@, "sudo dnf config-manager --set-enabled rt"@)));
    assert(ns[20] == cat[20]);
    assert(leaf_contrib(ns, 20) == Seq::<NodeView>::empty());
    assert(cat[21] == (cat_item("High Availability (HA)"@, "sudo dnf config-manager --set-enabled ha"@)));
    assert(ns[21] == cat[21]);
    assert(leaf_contrib(ns, 21) == Seq::<NodeView>::empty());
    assert(cat[24] == (cat_item("KVM (Core & Tools)"@, "sudo dnf install -y @virtualization\nsudo systemctl enable --now libvirtd"@)));
    assert(ns[24] == cat[24]);
    assert(leaf_contrib(ns, 24) == Seq::<NodeView>::empty());
    assert(cat[25] == (cat_item("Minimal Install"@, "sudo dnf install -y cockpit\nsudo systemctl enable --now cockpit.socket\nsudo firewall-cmd --add-service=cockpit --permanent\nsudo firewall-cmd --reload"@)));
    assert(ns[25] == cat[25]);
    assert(leaf_contrib(ns, 25) == Seq::<NodeView>::empty());
    assert(cat[26] == (cat_item("Full Install (with Machines)"@, "sudo dnf install -y cockpit cockpit-machines\nsudo systemctl enable --now cockpit.socket\nsudo firewall-cmd --add-service=cockpit --permanent\nsudo firewall-cmd --reload"@)));
    assert(ns[26] == cat[26]);
    assert(leaf_contrib(ns, 26) == Seq::<NodeView>::empty());
    assert(cat[29] == (cat_item("OpenVPN"@, "sudo dnf install -y NetworkManager-openvpn NetworkManager-openvpn-gnome"@)));
    assert(ns[29] == cat[29]);
    assert(leaf_contrib(ns, 29) == Seq::<NodeView>::empty());
    assert(cat[30] == (cat_item("OpenConnect"@, "sudo dnf install -y NetworkManager-openconnect NetworkManager-openconnect-gnome"@)));
    assert(ns[30] == cat[30]);
    assert(leaf_contrib(ns, 30) == Seq::<NodeView>::empty());
    assert(cat[31] == (cat_item("L2TP"@, "sudo dnf install -y NetworkManager-l2tp NetworkManager-l2tp-gnome"@)));
    assert(ns[31] == cat[31]);
    assert(leaf_contrib(ns, 31) == Seq::<NodeView>::empty());
    assert(cat[32] == (cat_item("LibreSwan"@, "sudo dnf install -y NetworkManager-libreswan NetworkManager-libreswan-gnome"@)));
    assert(ns[32] == cat[32]);
    assert(leaf_contrib(ns, 32) == Seq::<NodeView>::empty());
    assert(cat[33] == (cat_item("StrongSwan"@, "sudo dnf install -y strongswan strongswan-charon-nm"@)));
    assert(ns[33] == cat[33]);
    assert(leaf_contrib(ns, 33) == Seq::<NodeView>::empty());
    assert(cat[34] == (cat_item("PPTP"@, "sudo dnf install -y NetworkManager-pptp NetworkManager-pptp-gnome"@)));
    assert(ns[34] == cat[34]);
    assert(leaf_contrib(ns, 34) == Seq::<NodeView>::empty());
    assert(selected_leaves(ns, 39) =~= seq![ns[18]]);
    assert(selected_payloads(ns, 39) =~= seq!["sudo dnf install -y epel-release"@]);
    assert(joined_payloads(Seq::<Seq<char>>::empty()) == Seq::<char>::empty());
    assert((seq!["sudo dnf install -y epel-release"@]).drop_first() =~= Seq::<Seq<char>>::empty());
    assert(joined_payloads(seq!["sudo dnf install -y epel-release"@]) =~= ("sudo dnf install -y epel-release"@ + "\n"@));
    assert(spec_script(ns, 39, os, false) =~= spec_header(os) + "sudo dnf install -y epel-release"@ + "\n"@);
}

/// With the CodeReady Builder and EPEL repository items of the fresh
/// catalogue selected and a reboot asked for, the synthesized script holds
/// both payload lines in catalogue order and then the reboot tail.
#[verifier::rlimit(100)]
pub proof fn lemma_crb_epel_reboot_script(ns: Seq<NodeView>, os: OsDistribution)
    requires
        arena_wf(ns),
        ns == spec_catalog(os).update(crb_index(), spec_toggle(spec_catalog(os)[crb_index()])).update(
            epel_index(),
            spec_toggle(spec_catalog(os)[epel_index()]),
        ),
    ensures
        spec_script(ns, spec_catalog(os).len() - 1, os, true) == spec_header(os) + "sudo dnf config-manager --set-enabled codeready-builder-for-rhel-10-rhui-rpms || sudo dnf config-manager --set-enabled crb"@ + "\n"@ + "sudo dnf install -y epel-release"@ + "\n"@
            + "\necho 'Installation complete. Rebooting now...'\n"@ + "sudo reboot\n"@,
{
    let cat = spec_catalog(os);
    assert(cat.len() == 40);
    assert(ns.len() == 40);
    assert forall|i: int| 0 <= i < ns.len() implies #[trigger] same_catalog_shape(
        ns,
        os,
        i,
    ) by {
        if i != 17 && i != 18 {
            assert(ns[i] == cat[i]);
        } else {
            assert(ns[i] == spec_toggle(cat[i]));
        }
    }
    lemma_catalog_traversal(ns, os);
    assert(cat[0] == (cat_item("Minimal Installation"@, "sudo dnf install -y gdm gnome-browser-connector\nsudo systemctl set-default graphical.target"@)));
    assert(ns[0] == cat[0]);
    assert(leaf_contrib(ns, 0) == Seq::<NodeView>::empty());
    assert(cat[1] == (cat_item("Full Installation"@, "sudo dnf groupinstall -y 'Workstation'\nsudo systemctl set-default graphical.target"@)));
    assert(ns[1] == cat[1]);
    assert(leaf_contrib(ns, 1) == Seq::<NodeView>::empty());
    assert(cat[10] == (cat_item("Compile from Source"@, "# This is a complex process and requires many dependencies.\n# This script is a placeholder for the required commands.\nsudo dnf install -y ninja-build meson gcc wayland-devel wayland-protocols-devel libinput-devel libxcb-devel libxkbcommon-devel pixman-devel"@)));
    assert(ns[10] == cat[10]);
    assert(leaf_contrib(ns, 10) == Seq::<NodeView>::empty());
    assert(cat[12] == (cat_item("Wofi"@, "sudo dnf install -y wofi"@)));
    assert(ns[12] == cat[12]);
    assert(leaf_contrib(ns, 12) == Seq::<NodeView>::empty());
    assert(cat[16] == (cat_item("CEPH"@, "sudo dnf install -y ceph-common"@)));
    assert(ns[16] == cat[16]);
    assert(leaf_contrib(ns, 16) == Seq::<NodeView>::empty());
    assert(cat[17] == (cat_item(crb_item_name(os), "sudo dnf config-manager --set-enabled codeready-builder-for-rhel-10-rhui-rpms || sudo dnf config-manager --set-enabled crb"@)));
    assert(ns[17] == spec_toggle(cat[17]));
    assert(leaf_contrib(ns, 17) == seq![ns[17]]);
    assert(cat[18] == (cat_item("EPEL"@, "sudo dnf install -y epel-release"@)));
    assert(ns[18] == spec_toggle(cat[18]));
    assert(leaf_contrib(ns, 18) == seq![ns[18]]);
    assert(cat[19] == (cat_item("Flathub"@, "sudo flatpak remote-add --if-not-exists flathub https://flathub.org/repo/flathub.flatpakrepo"@)));
    assert(ns[19] == cat[19]);
    assert(leaf_contrib(ns, 19) == Seq::<NodeView>::empty());
    assert(cat[20] == (cat_item("Real-Time (RT)"@, "sudo dnf config-manager --set-enabled rt"@)));
    assert(ns[20] == cat[20]);
    assert(leaf_contrib(ns, 20) == Seq::<NodeView>::empty());
    assert(cat[21] == (cat_item("High Availability (HA)"@, "sudo dnf config-manager --set-enabled ha"@)));
    assert(ns[21] == cat[21]);
    assert(leaf_contrib(ns, 21) == Seq::<NodeView>::empty());
    assert(cat[24] == (cat_item("KVM (Core & Tools)"@, "sudo dnf install -y @virtualization\nsudo systemctl enable --now libvirtd"@)));
    assert(ns[24] == cat[24]);
    assert(leaf_contrib(ns, 24) == Seq::<NodeView>::empty());
    assert(cat[25] == (cat_item("Minimal Install"@, "sudo dnf install -y cockpit\nsudo systemctl enable --now cockpit.socket\nsudo firewall-cmd --add-service=cockpit --permanent\nsudo firewall-cmd --reload"@)));
    assert(ns[25] == cat[25]);
    assert(leaf_contrib(ns, 25) == Seq::<NodeView>::empty());
    assert(cat[26] == (cat_item("Full Install (with Machines)"@, "sudo dnf install -y cockpit cockpit-machines\nsudo systemctl enable --now cockpit.socket\nsudo firewall-cmd --add-service=cockpit --permanent\nsudo firewall-cmd --reload"@)));
    assert(ns[26] == cat[26]);
    assert(leaf_contrib(ns, 26) == Seq::<NodeView>::empty());
    assert(cat[29] == (cat_item("OpenVPN"@, "sudo dnf install -y NetworkManager-openvpn NetworkManager-openvpn-gnome"@)));
    assert(ns[29] == cat[29]);
    assert(leaf_contrib(ns, 29) == Seq::<NodeView>::empty());
    assert(cat[30] == (cat_item("OpenConnect"@, "sudo dnf install -y NetworkManager-openconnect NetworkManager-openconnect-gnome"@)));
    assert(ns[30] == cat[30]);
    assert(leaf_contrib(ns, 30) == Seq::<NodeView>::empty());
    assert(cat[31] == (cat_item("L2TP"@, "sudo dnf install -y NetworkManager-l2tp NetworkManager-l2tp-gnome"@)));
    assert(ns[31] == cat[31]);
    assert(leaf_contrib(ns, 31) == Seq::<NodeView>::empty());
    assert(cat[32] == (cat_item("LibreSwan"@, "sudo dnf install -y NetworkManager-libreswan NetworkManager-libreswan-gnome"@)));
    assert(ns[32] == cat[32]);
    assert(leaf_contrib(ns, 32) == Seq::<NodeView>::empty());
    assert(cat[33] == (cat_item("StrongSwan"@, "sudo dnf install -y strongswan strongswan-charon-nm"@)));
    assert(ns[33] == cat[33]);
    assert(leaf_contrib(ns, 33) == Seq::<NodeView>::empty());
    assert(cat[34] == (cat_item("PPTP"@, "sudo dnf install -y NetworkManager-pptp NetworkManager-pptp-gnome"@)));
    assert(ns[34] == cat[34]);
    assert(leaf_contrib(ns, 34) == Seq::<NodeView>::empty());
    assert(selected_leaves(ns, 39) =~= seq![ns[17], ns[18]]);
    assert(selected_payloads(ns, 39) =~= seq!["sudo dnf config-manager --set-enabled codeready-builder-for-rhel-10-rhui-rpms || sudo dnf config-manager --set-enabled crb"@, "sudo dnf install -y epel-release"@]);
    assert(joined_payloads(Seq::<Seq<char>>::empty()) == Seq::<char>::empty());
    assert((seq!["sudo dnf install -y epel-release"@]).drop_first() =~= Seq::<Seq<char>>::empty());
    assert(joined_payloads(seq!["sudo dnf install -y epel-release"@]) =~= ("sudo dnf install -y epel-release"@ + "\n"@));
    assert((seq!["sudo dnf config-manager --set-enabled codeready-builder-for-rhel-10-rhui-rpms || sudo dnf config-manager --set-enabled crb"@, "sudo dnf install -y epel-release"@]).drop_first() =~= seq!["sudo dnf install -y epel-release"@]);
    assert(joined_payloads(seq!["sudo dnf config-manager --set-enabled codeready-builder-for-rhel-10-rhui-rpms || sudo dnf config-manager --set-enabled crb"@, "sudo dnf install -y epel-release"@]) =~= ("sudo dnf config-manager --set-enabled codeready-builder-for-rhel-10-rhui-rpms || sudo dnf config-manager --set-enabled crb"@ + "\n"@) + ("sudo dnf install -y epel-release"@ + "\n"@));
    assert(spec_script(ns, 39, os, true) =~= spec_header(os) + "sudo dnf config-manager --set-enabled codeready-builder-for-rhel-10-rhui-rpms || sudo dnf config-manager --set-enabled crb"@ + "\n"@ + "sudo dnf install -y epel-release"@ + "\n"@
            + "\necho 'Installation complete. Rebooting now...'\n"@ + "sudo reboot\n"@);
}
} // verus!
