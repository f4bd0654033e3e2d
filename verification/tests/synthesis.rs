use rdct::app::{App, AppState};
use rdct::menu::{MenuNode, MenuTree};
use rdct::OsDistribution;

fn item(name: &str, payload: &str, selected: bool) -> MenuNode {
    MenuNode::Item { name: name.to_string(), payload: payload.to_string(), selected }
}

fn menu(name: &str, children: Vec<usize>) -> MenuNode {
    MenuNode::Menu { name: name.to_string(), children }
}

fn repo_app(epel_selected: bool, crb_selected: bool) -> App {
    let nodes = vec![
        item("EPEL", "sudo dnf install -y epel-release", epel_selected),
        item("CRB", "sudo dnf config-manager --set-enabled crb", crb_selected),
        menu("Repositories", vec![0, 1]),
        menu("Root", vec![2]),
    ];
    let tree = MenuTree { nodes, root: 3 };
    App {
        state: AppState::Running,
        tree,
        nav_path: vec![3],
        selected_index: 0,
        os_distro: OsDistribution::Unknown,
        reboot_requested: false,
        filename_input: String::new(),
        save_status_message: None,
    }
}

const HEADER: &str = "#!/bin/bash\n\
    # Commands generated for Unknown by RHEL/CentOS TUI Manager\n\
    # Save this script and run it with sudo: sudo bash ./script.sh\n\n";

#[test]
fn selecting_only_epel_emits_only_the_epel_line() {
    let app = repo_app(true, false);
    let script = app.generate_commands(false);
    let expected = format!("{}sudo dnf install -y epel-release\n", HEADER);
    assert_eq!(script, expected);
    assert!(!script.contains("crb"));
    assert!(!script.contains("reboot"));
}

#[test]
fn reboot_lines_come_after_both_payloads_in_order() {
    let app = repo_app(true, true);
    let script = app.generate_commands(true);
    let expected = format!(
        "{}sudo dnf install -y epel-release\nsudo dnf config-manager --set-enabled crb\n\necho 'Installation complete. Rebooting now...'\nsudo reboot\n",
        HEADER
    );
    assert_eq!(script, expected);
}

#[test]
fn empty_selection_yields_the_marker_and_no_payload_line() {
    let app = repo_app(false, false);
    let script = app.generate_commands(false);
    let expected = format!("{}\n# No options selected.\n", HEADER);
    assert_eq!(script, expected);
    assert!(!script.contains("epel"));
}

#[test]
fn synthesis_is_idempotent_for_a_fixed_snapshot() {
    let app = repo_app(true, false);
    assert_eq!(app.generate_commands(false), app.generate_commands(false));
    assert_eq!(app.generate_commands(true), app.generate_commands(true));
}

#[test]
fn select_then_deselect_restores_the_output() {
    let mut app = repo_app(false, false);
    let before = app.generate_commands(false);
    app.activate(); // enter "Repositories"
    app.activate(); // select "EPEL"
    assert_ne!(app.generate_commands(false), before);
    app.activate(); // deselect "EPEL"
    assert_eq!(app.generate_commands(false), before);
}

#[test]
fn header_names_the_detected_distribution() {
    let mut app = App::new(OsDistribution::Rhel);
    assert!(app.generate_commands(false).contains("# Commands generated for Rhel by"));
    app = App::new(OsDistribution::Centos);
    assert!(app.generate_commands(false).contains("# Commands generated for Centos by"));
}

#[test]
fn epel_only_in_the_real_catalogue_gives_exactly_the_epel_script() {
    let mut app = App::new(OsDistribution::Centos);
    for _ in 0..4 {
        app.move_next();
    }
    app.activate(); // enter "Add Repositories"
    app.move_next();
    app.move_next();
    app.activate(); // select "EPEL"
    let expected = "#!/bin/bash\n\
        # Commands generated for Centos by RHEL/CentOS TUI Manager\n\
        # Save this script and run it with sudo: sudo bash ./script.sh\n\n\
        sudo dnf install -y epel-release\n";
    assert_eq!(app.generate_commands(false), expected);
}

#[test]
fn payloads_appear_in_catalogue_preorder() {
    let mut app = App::new(OsDistribution::Unknown);
    // Select "KVM (Core & Tools)" first (root row 6), then "EPEL"
    // (inside Repositories > Add Repositories): catalogue order must put
    // EPEL before KVM regardless of selection order.
    for _ in 0..6 {
        app.move_next();
    }
    app.activate();
    app.move_prev();
    app.move_prev(); // root row 4: "Add Repositories"
    app.activate(); // enter it
    app.move_next();
    app.move_next(); // its row 2: "EPEL"
    app.activate(); // select "EPEL"
    assert_eq!(
        app.get_selected_items(),
        vec!["EPEL".to_string(), "KVM (Core & Tools)".to_string()]
    );
    let script = app.generate_commands(false);
    let epel_at = script.find("sudo dnf install -y epel-release").unwrap();
    let kvm_at = script.find("sudo dnf install -y @virtualization").unwrap();
    assert!(epel_at < kvm_at);
}
