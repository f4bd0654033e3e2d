use rdct::app::{App, AppState};
use rdct::menu::{MenuNode, MenuTree};
use rdct::nav::ViewRow;
use rdct::OsDistribution;

fn item(name: &str, payload: &str, selected: bool) -> MenuNode {
    MenuNode::Item { name: name.to_string(), payload: payload.to_string(), selected }
}

fn menu(name: &str, children: Vec<usize>) -> MenuNode {
    MenuNode::Menu { name: name.to_string(), children }
}

fn app_over(tree: MenuTree) -> App {
    let root = tree.root;
    App {
        state: AppState::Running,
        tree,
        nav_path: vec![root],
        selected_index: 0,
        os_distro: OsDistribution::Unknown,
        reboot_requested: false,
        filename_input: String::new(),
        save_status_message: None,
    }
}

/// Root{A: Group{x, y}, B: Item}: the root view is [A, x, y, B], a view
/// inside A is [x, y].
#[test]
fn root_view_expands_one_level_eagerly() {
    let nodes = vec![
        item("x", "echo x", false),
        item("y", "echo y", false),
        menu("A", vec![0, 1]),
        item("B", "echo B", false),
        menu("Root", vec![2, 3]),
    ];
    let mut app = app_over(MenuTree { nodes, root: 4 });

    let rows = app.visible_nodes();
    assert_eq!(
        rows,
        vec![
            ViewRow { node: 2, depth: 0 },
            ViewRow { node: 0, depth: 1 },
            ViewRow { node: 1, depth: 1 },
            ViewRow { node: 3, depth: 0 },
        ]
    );

    app.activate();
    assert_eq!(app.nav_path, vec![4, 2]);
    assert_eq!(app.selected_index, 0);
    let inner = app.visible_nodes();
    assert_eq!(inner, vec![ViewRow { node: 0, depth: 0 }, ViewRow { node: 1, depth: 0 }]);
}

#[test]
fn deep_nesting_is_not_expanded_at_root() {
    let nodes = vec![
        item("leaf", "echo leaf", false),
        menu("inner", vec![0]),
        menu("outer", vec![1]),
        menu("Root", vec![2]),
    ];
    let app = app_over(MenuTree { nodes, root: 3 });
    let rows = app.visible_nodes();
    assert_eq!(
        rows,
        vec![ViewRow { node: 2, depth: 0 }, ViewRow { node: 1, depth: 1 }]
    );
}

#[test]
fn cursor_wraps_at_both_ends() {
    let mut app = App::new(OsDistribution::Unknown);
    let n = app.visible_nodes().len();
    assert_eq!(n, 12);
    assert_eq!(app.selected_index, 0);

    app.move_prev();
    assert_eq!(app.selected_index, n - 1);
    app.move_next();
    assert_eq!(app.selected_index, 0);

    for k in 1..n {
        app.move_next();
        assert_eq!(app.selected_index, k);
    }
    app.move_next();
    assert_eq!(app.selected_index, 0);

    for _ in 0..(3 * n) {
        app.move_next();
        assert!(app.selected_index < n);
    }
}

#[test]
fn activating_an_item_toggles_and_is_its_own_inverse() {
    let mut app = App::new(OsDistribution::Unknown);
    // The KVM item sits at row 6 of the root view.
    for _ in 0..6 {
        app.move_next();
    }
    let path_before = app.nav_path.clone();
    let index_before = app.selected_index;

    app.activate();
    assert_eq!(app.get_selected_items(), vec!["KVM (Core & Tools)".to_string()]);
    assert_eq!(app.nav_path, path_before);
    assert_eq!(app.selected_index, index_before);

    app.activate();
    assert!(app.get_selected_items().is_empty());
    assert_eq!(app.nav_path, path_before);
    assert_eq!(app.selected_index, index_before);
}

#[test]
fn entering_a_group_pushes_one_element_and_back_pops_it() {
    let mut app = App::new(OsDistribution::Unknown);
    let path_before = app.nav_path.clone();
    app.move_next();
    app.activate(); // enter "Gnome DE"
    assert_eq!(app.nav_path.len(), path_before.len() + 1);
    assert_eq!(app.selected_index, 0);

    app.back();
    assert_eq!(app.nav_path, path_before);
    assert_eq!(app.selected_index, 0);
}

#[test]
fn back_at_root_is_a_no_op() {
    let mut app = App::new(OsDistribution::Unknown);
    app.move_next();
    let index_before = app.selected_index;
    app.back();
    assert_eq!(app.nav_path.len(), 1);
    assert_eq!(app.selected_index, index_before);
}

#[test]
fn empty_group_is_navigable() {
    let mut app = App::new(OsDistribution::Unknown);
    // "Hardening" is the last root row.
    app.move_prev();
    app.activate();
    assert_eq!(app.nav_path.len(), 2);
    assert!(app.visible_nodes().is_empty());
    assert!(app.menu_display_lines().is_empty());

    app.move_next();
    assert_eq!(app.selected_index, 0);
    app.move_prev();
    assert_eq!(app.selected_index, 0);

    app.back();
    assert_eq!(app.nav_path.len(), 1);
}

#[test]
fn breadcrumb_follows_the_path() {
    let mut app = App::new(OsDistribution::Unknown);
    assert_eq!(app.breadcrumb(), "Main Menu");
    app.activate(); // enter "Graphical Environments"
    assert_eq!(app.breadcrumb(), "Main Menu > Graphical Environments");
    app.activate(); // enter "Gnome DE"
    assert_eq!(app.breadcrumb(), "Main Menu > Graphical Environments > Gnome DE");
    app.back();
    assert_eq!(app.breadcrumb(), "Main Menu > Graphical Environments");
}

#[test]
fn display_lines_mark_selection() {
    let mut app = App::new(OsDistribution::Unknown);
    for _ in 0..6 {
        app.move_next();
    }
    app.activate();
    let lines = app.menu_display_lines();
    assert_eq!(lines[6], "  [x] KVM (Core & Tools)");
    app.activate();
    let lines = app.menu_display_lines();
    assert_eq!(lines[6], "  [ ] KVM (Core & Tools)");
}
