//! The session's state: the catalogue tree, the navigation path into it,
//! the cursor, and the bookkeeping of the review and save screens.

use vstd::prelude::*;

use crate::catalog::{build_menu_tree, spec_catalog};
use crate::menu::{lemma_no_selection_leaves, MenuTree};
use crate::os::OsDistribution;
use crate::synth::{spec_script, synthesize};

verus! {

/// Which screen of the session is active.
#[derive(Debug, PartialEq, Eq, Structural, Clone, Copy)]
pub enum AppState {
    /// Browsing the catalogue tree.
    Running,
    /// Reviewing the generated script.
    Finished,
    /// Entering a filename to save the script to.
    Saving,
}

/// What the caller of the session loop is to do once it ends.
pub enum ActionAfterExit {
    Quit,
    RunScript(String),
}

/// The whole application state.
pub struct App {
    pub state: AppState,
    pub tree: MenuTree,
    /// Arena indices of the root-to-current-group chain; never empty, the
    /// root is always first.
    pub nav_path: Vec<usize>,
    /// Zero-based cursor into the current visible view.
    pub selected_index: usize,
    pub os_distro: OsDistribution,
    pub reboot_requested: bool,
    pub filename_input: String,
    pub save_status_message: Option<String>,
}

impl App {
    /// The navigation path starts at the root and every element is a valid
    /// group index of the arena.
    pub open spec fn nav_wf(&self) -> bool {
        &&& self.nav_path@.len() >= 1
        &&& self.nav_path@[0] == self.tree.root
        &&& forall|k: int|
            0 <= k < self.nav_path@.len() ==> ((#[trigger] self.nav_path@[k]) as int)
                < self.tree@.len() && self.tree@[self.nav_path@[k] as int] is Menu
    }

    /// The cursor is clamped: zero, or strictly inside the visible view.
    pub open spec fn index_wf(&self) -> bool {
        self.selected_index == 0 || (self.selected_index as int) < self.spec_view().len()
    }

    /// The whole application invariant.
    pub open spec fn wf(&self) -> bool {
        &&& self.tree.wf()
        &&& self.nav_wf()
        &&& self.index_wf()
    }

    /// A fresh session: browsing the freshly built catalogue from its
    /// root, nothing selected, no reboot requested, empty filename buffer.
    pub fn new(os: OsDistribution) -> (app: App)
        ensures
            app.wf(),
            app.state == AppState::Running,
            app.tree@ == spec_catalog(os),
            app.tree.root as int == spec_catalog(os).len() - 1,
            app.nav_path@ == seq![app.tree.root],
            app.selected_index == 0,
            app.os_distro == os,
            !app.reboot_requested,
            app.filename_input@ == Seq::<char>::empty(),
            app.save_status_message is None,
            app.tree.spec_selected_payloads() == Seq::<Seq<char>>::empty(),
    {
        let tree = build_menu_tree(os);
        proof {
            lemma_no_selection_leaves(tree@, tree.root as int);
        }
        let root = tree.root;
        let mut nav_path: Vec<usize> = Vec::new();
        nav_path.push(root);
        let app = App {
            state: AppState::Running,
            tree,
            nav_path,
            selected_index: 0,
            os_distro: os,
            reboot_requested: false,
            filename_input: String::new(),
            save_status_message: None,
        };
        proof {
            assert(app.nav_path@ =~= seq![app.tree.root]);
        }
        app
    }

    /// The script for the current selection snapshot: deterministic, so a
    /// second call without intervening mutation is byte-identical.
    pub fn generate_commands(&self, reboot: bool) -> (r: String)
        requires
            self.wf(),
        ensures
            r@ == spec_script(self.tree@, self.tree.root as int, self.os_distro, reboot),
    {
        synthesize(&self.tree, self.os_distro, reboot)
    }

    /// The names of all currently selected items, in catalogue order.
    pub fn get_selected_items(&self) -> (r: Vec<String>)
        requires
            self.wf(),
        ensures
            r.deep_view() == self.tree.spec_selected_names(),
    {
        self.tree.collect_selected_names()
    }
}

} // verus!
