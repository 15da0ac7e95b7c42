use bridgectl::Bridge;
use bridgectl::BridgeController;
use bridgectl::CommandError;

const SHOW_ONE: &str =
    "bridge name  bridge id  STP enabled  interfaces\nbr0  8000.aabbccddeeff  yes  eth0\n";

#[test]
fn show_table_yields_id_stp_and_interfaces() {
    let bridge = Bridge::new("br0");
    assert_eq!(bridge.get_id(SHOW_ONE).unwrap(), "8000.aabbccddeeff");
    assert_eq!(bridge.get_stp(SHOW_ONE).unwrap(), true);
    assert_eq!(bridge.get_interfaces(SHOW_ONE), vec!["eth0".to_string()]);
}

#[test]
fn stp_token_no_is_disabled() {
    let bridge = Bridge::new("br0");
    let details = "bridge name  bridge id  STP enabled  interfaces\nbr0  8000.aabbccddeeff  no  eth0\n";
    assert_eq!(bridge.get_stp(details).unwrap(), false);
}

#[test]
fn stp_unknown_token_is_its_own_failure() {
    let bridge = Bridge::new("br0");
    let details = "bridge name  bridge id  STP enabled  interfaces\nbr0  8000.aabbccddeeff  maybe  eth0\n";
    let err = bridge.get_stp(details).unwrap_err();
    match err {
        CommandError::ExecutionError(m) => {
            assert_eq!(m, "Unknown STP state: maybe");
        },
        CommandError::Io(_) => panic!("unknown token must not be an I/O failure"),
    }
}

#[test]
fn stp_short_output_is_execution_failure() {
    let bridge = Bridge::new("br0");
    let err = bridge.get_stp("bridge name  bridge id  STP enabled  interfaces\n").unwrap_err();
    match err {
        CommandError::ExecutionError(m) => assert_eq!(m, "Failed to determine STP state"),
        CommandError::Io(_) => panic!("parse failure must not be an I/O failure"),
    }
}

#[test]
fn id_short_output_is_execution_failure() {
    let bridge = Bridge::new("br0");
    let err = bridge.get_id("bridge name  bridge id  STP enabled  interfaces\n").unwrap_err();
    match err {
        CommandError::ExecutionError(m) => assert_eq!(m, "Failed to get bridge ID"),
        CommandError::Io(_) => panic!("parse failure must not be an I/O failure"),
    }
}

#[test]
fn interfaces_of_bare_bridge_are_empty() {
    let bridge = Bridge::new("br0");
    let details = "bridge name  bridge id  STP enabled  interfaces\nbr0  8000.aabbccddeeff  no\n";
    assert!(bridge.get_interfaces(details).is_empty());
}

#[test]
fn interfaces_collect_every_four_column_row() {
    let bridge = Bridge::new("br0");
    let details = "bridge name  bridge id  STP enabled  interfaces\n\
                   br0  8000.aabbccddeeff  yes  eth0\n\
                   br0  8000.aabbccddeeff  yes  eth1\n";
    assert_eq!(bridge.get_interfaces(details), vec!["eth0".to_string(), "eth1".to_string()]);
}

#[test]
fn interfaces_skip_single_column_continuation_rows() {
    let bridge = Bridge::new("br0");
    let details =
        "bridge name  bridge id  STP enabled  interfaces\nbr0  8000.aabbccddeeff  yes  eth0\n\t\t\t\teth1\n";
    assert_eq!(bridge.get_interfaces(details), vec!["eth0".to_string()]);
}

#[test]
fn version_banner_parses_major_minor() {
    let version_output = "bridge-utils, 1.7\n";
    let link_output = "1: lo: <LOOPBACK,UP,LOWER_UP> mtu 65536\n    link/loopback 00:00:00:00:00:00\n2: eth0: <BROADCAST,MULTICAST> mtu 1500\n";
    let (version, interfaces) = BridgeController::check(version_output, link_output).unwrap();
    assert_eq!(version, "1.7");
    assert_eq!(interfaces, vec!["lo".to_string(), "eth0".to_string()]);
}

#[test]
fn version_takes_leftmost_occurrence() {
    let version_output = "noise bridge-utils, 10.42 noise bridge-utils, 1.2\n";
    let (version, _) = BridgeController::check(version_output, "").unwrap();
    assert_eq!(version, "10.42");
}

#[test]
fn missing_version_banner_is_execution_failure() {
    let err = BridgeController::check("bridge-utils version unknown\n", "").unwrap_err();
    match err {
        CommandError::ExecutionError(m) => assert_eq!(m, "Failed to parse brctl version"),
        CommandError::Io(_) => panic!("a malformed banner must not be an I/O failure"),
    }
}

#[test]
fn link_lines_with_other_shapes_are_skipped() {
    let link_output = "1: lo: <LOOPBACK>\nlink/ether aa:bb\n2: veth0@if3: <BROADCAST>\n";
    let (_, interfaces) = BridgeController::check("bridge-utils, 1.7\n", link_output).unwrap();
    assert_eq!(interfaces, vec!["lo".to_string(), "veth0@if3".to_string()]);
}

#[test]
fn split_tokens_collapses_runs_of_whitespace() {
    let toks = bridgectl::text::split_tokens("  one \t two\t\tthree ");
    assert_eq!(toks, vec!["one".to_string(), "two".to_string(), "three".to_string()]);
}

#[test]
fn split_lines_drops_only_the_final_newline_segment() {
    let lines = bridgectl::text::split_lines("a\n\nb\n");
    assert_eq!(lines, vec!["a".to_string(), "".to_string(), "b".to_string()]);
    assert!(bridgectl::text::split_lines("").is_empty());
}

#[test]
fn u32_renders_in_decimal() {
    assert_eq!(bridgectl::text::u32_to_string(0), "0");
    assert_eq!(bridgectl::text::u32_to_string(7), "7");
    assert_eq!(bridgectl::text::u32_to_string(40123), "40123");
    assert_eq!(bridgectl::text::u32_to_string(u32::MAX), "4294967295");
}
