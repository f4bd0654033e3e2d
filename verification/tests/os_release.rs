use rdct::os::parse_os_release;
use rdct::OsDistribution;

#[test]
fn id_rhel_is_detected() {
    assert_eq!(parse_os_release(b"ID=rhel\n"), OsDistribution::Rhel);
}

#[test]
fn id_centos_is_detected() {
    assert_eq!(parse_os_release(b"ID=centos\n"), OsDistribution::Centos);
}

#[test]
fn quoted_id_is_unquoted() {
    assert_eq!(parse_os_release(b"ID=\"rhel\"\n"), OsDistribution::Rhel);
    assert_eq!(parse_os_release(b"ID=\"centos\""), OsDistribution::Centos);
}

#[test]
fn first_id_line_decides() {
    let content = b"NAME=\"Red Hat Enterprise Linux\"\nVERSION=\"10.0\"\nID=rhel\nID_LIKE=fedora\n";
    assert_eq!(parse_os_release(content), OsDistribution::Rhel);
}

#[test]
fn unknown_id_degrades_to_unknown() {
    assert_eq!(parse_os_release(b"ID=debian\n"), OsDistribution::Unknown);
}

#[test]
fn missing_id_line_is_unknown() {
    assert_eq!(parse_os_release(b"NAME=Something\nVERSION=1\n"), OsDistribution::Unknown);
    assert_eq!(parse_os_release(b""), OsDistribution::Unknown);
}

#[test]
fn crlf_line_ending_is_stripped() {
    assert_eq!(parse_os_release(b"ID=rhel\r\nNAME=x\r\n"), OsDistribution::Rhel);
}

#[test]
fn id_prefix_must_match_exactly() {
    assert_eq!(parse_os_release(b"ID_LIKE=rhel\n"), OsDistribution::Unknown);
}

#[test]
fn repeated_id_prefixes_are_all_stripped() {
    assert_eq!(parse_os_release(b"ID=ID=rhel\n"), OsDistribution::Rhel);
}

#[test]
fn carriage_return_without_newline_stays_in_the_value() {
    assert_eq!(parse_os_release(b"ID=rhel\r"), OsDistribution::Unknown);
}
