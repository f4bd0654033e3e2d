use rdct::app::App;
use rdct::menu::MenuNode;
use rdct::OsDistribution;

#[test]
fn payloads_are_the_documented_commands() {
    assert_eq!(rdct::add_epel(), "sudo dnf install -y epel-release");
    assert_eq!(rdct::add_ceph(), "sudo dnf install -y ceph-common");
    assert_eq!(
        rdct::add_crb(),
        "sudo dnf config-manager --set-enabled codeready-builder-for-rhel-10-rhui-rpms || sudo dnf config-manager --set-enabled crb"
    );
    assert_eq!(
        rdct::add_flathub(),
        "sudo flatpak remote-add --if-not-exists flathub https://flathub.org/repo/flathub.flatpakrepo"
    );
    assert_eq!(rdct::add_rt(), "sudo dnf config-manager --set-enabled rt");
    assert_eq!(rdct::add_ha(), "sudo dnf config-manager --set-enabled ha");
    assert_eq!(
        rdct::minimal_install(),
        "sudo dnf install -y gdm gnome-browser-connector\nsudo systemctl set-default graphical.target"
    );
    assert_eq!(
        rdct::full_install(),
        "sudo dnf groupinstall -y 'Workstation'\nsudo systemctl set-default graphical.target"
    );
    assert_eq!(rdct::install_wofi(), "sudo dnf install -y wofi");
    assert!(rdct::compile_from_source().contains("ninja-build meson gcc"));
    assert_eq!(
        rdct::install_kvm(),
        "sudo dnf install -y @virtualization\nsudo systemctl enable --now libvirtd"
    );
    assert!(rdct::install_cockpit_minimal().starts_with("sudo dnf install -y cockpit\n"));
    assert!(rdct::install_cockpit_full().starts_with("sudo dnf install -y cockpit cockpit-machines\n"));
    assert_eq!(
        rdct::install_vpn_ovpn(),
        "sudo dnf install -y NetworkManager-openvpn NetworkManager-openvpn-gnome"
    );
    assert_eq!(
        rdct::install_vpn_l2tp(),
        "sudo dnf install -y NetworkManager-l2tp NetworkManager-l2tp-gnome"
    );
    assert_eq!(rdct::install_vpn_sswan(), "sudo dnf install -y strongswan strongswan-charon-nm");
    assert_eq!(
        rdct::install_vpn_lswan(),
        "sudo dnf install -y NetworkManager-libreswan NetworkManager-libreswan-gnome"
    );
    assert_eq!(
        rdct::install_vpn_pptp(),
        "sudo dnf install -y NetworkManager-pptp NetworkManager-pptp-gnome"
    );
    assert_eq!(
        rdct::install_vpn_oconn(),
        "sudo dnf install -y NetworkManager-openconnect NetworkManager-openconnect-gnome"
    );
}

#[test]
fn root_view_of_catalogue_previews_one_level() {
    let app = App::new(OsDistribution::Unknown);
    let lines = app.menu_display_lines();
    let expected = vec![
        "Graphical Environments >",
        "  Gnome DE >",
        "  Sway WM >",
        "Repositories >",
        "  Add Repositories >",
        "Virtualization >",
        "  [ ] KVM (Core & Tools)",
        "  Cockpit >",
        "Networking >",
        "  NetworkManager >",
        "  KVM (libvirt networks) >",
        "Hardening >",
    ];
    assert_eq!(lines, expected);
}

#[test]
fn crb_item_is_named_by_distribution() {
    let name_of = |os: OsDistribution| -> Vec<String> {
        let app = App::new(os);
        app.tree
            .nodes
            .iter()
            .filter_map(|n| match n {
                MenuNode::Item { name, payload, .. } => {
                    if payload.contains("codeready-builder") {
                        Some(name.clone())
                    } else {
                        None
                    }
                },
                MenuNode::Menu { .. } => None,
            })
            .collect()
    };
    assert_eq!(name_of(OsDistribution::Rhel), vec!["CodeReady Builder".to_string()]);
    assert_eq!(name_of(OsDistribution::Centos), vec!["CRB".to_string()]);
    assert_eq!(name_of(OsDistribution::Unknown), vec!["CRB".to_string()]);
}

#[test]
fn fresh_catalogue_has_no_selection() {
    let app = App::new(OsDistribution::Rhel);
    assert!(app.get_selected_items().is_empty());
    let script = app.generate_commands(false);
    assert!(script.contains("# No options selected."));
}
