//! A verified core for a terminal menu that assembles a system-setup script.
//!
//! The library holds the catalogue tree, the navigation and selection logic,
//! the script synthesizer and the session state machine.  Terminal input and
//! rendering, file writing and script execution live outside the library.

pub mod app;
pub mod catalog;
pub mod display;
pub mod menu;
pub mod nav;
pub mod os;
pub mod session;
pub mod synth;
pub mod text;

pub use catalog::{
    add_ceph, add_crb, add_epel, add_flathub, add_ha, add_rt, build_menu_tree, compile_from_source,
    full_install, install_cockpit_full, install_cockpit_minimal, install_kvm, install_vpn_l2tp,
    install_vpn_lswan, install_vpn_oconn, install_vpn_ovpn, install_vpn_pptp, install_vpn_sswan,
    install_wofi, minimal_install,
};
pub use app::ActionAfterExit;
pub use menu::MenuNode;
pub use os::OsDistribution;
