use bridgectl::Bridge;
use bridgectl::BridgeController;
use bridgectl::CommandError;
use bridgectl::CommandRequest;

const LISTING_EMPTY: &str = "bridge name  bridge id  STP enabled  interfaces\n";
const LISTING_ONE: &str =
    "bridge name  bridge id  STP enabled  interfaces\nbr0  8000.aabbccddeeff  yes  eth0\n";
const LISTING_TWO: &str = "bridge name  bridge id  STP enabled  interfaces\nbr0  8000.aabbccddeeff  yes  eth0\nbr1  8000.112233445566  no\n";

fn argv(r: &CommandRequest) -> Vec<&str> {
    let mut v = vec![r.program.as_str()];
    for a in r.args.iter() {
        v.push(a.as_str());
    }
    v
}

#[test]
fn listing_with_zero_bridges_is_empty_not_an_error() {
    assert!(BridgeController::list_bridges(LISTING_EMPTY).is_empty());
    assert!(BridgeController::list_bridges("").is_empty());
}

#[test]
fn listing_names_come_in_table_order() {
    let bridges = BridgeController::list_bridges(LISTING_TWO);
    let names: Vec<&str> = bridges.iter().map(|b| b.get_name()).collect();
    assert_eq!(names, vec!["br0", "br1"]);
}

#[test]
fn absent_name_is_absence_not_an_error() {
    assert!(BridgeController::get_bridge("br9", LISTING_TWO).is_none());
    assert!(BridgeController::get_bridge("br9", LISTING_EMPTY).is_none());
    assert!(!BridgeController::check_bridge_exists("br9", LISTING_TWO));
}

#[test]
fn present_name_is_found() {
    let bridge = BridgeController::get_bridge("br1", LISTING_TWO).unwrap();
    assert_eq!(bridge.get_name(), "br1");
    assert!(BridgeController::check_bridge_exists("br0", LISTING_TWO));
}

#[test]
fn created_bridge_appears_once_and_deletion_removes_it() {
    let (plan, bridge) = BridgeController::create_bridge("br0");
    assert_eq!(plan.len(), 2);
    assert_eq!(bridge.get_name(), "br0");
    let listed = BridgeController::list_bridges(LISTING_ONE);
    let names: Vec<&str> = listed.iter().map(|b| b.get_name()).collect();
    assert_eq!(names.iter().filter(|n| **n == "br0").count(), 1);
    let _ = BridgeController::delete_bridge("br0");
    assert!(BridgeController::get_bridge("br0", LISTING_EMPTY).is_none());
}

#[test]
fn create_plan_makes_then_brings_up() {
    let (plan, _) = BridgeController::create_bridge("br7");
    assert_eq!(argv(&plan[0]), vec!["brctl", "addbr", "br7"]);
    assert_eq!(argv(&plan[1]), vec!["ip", "link", "set", "dev", "br7", "up"]);
}

#[test]
fn delete_plan_brings_down_then_removes() {
    let plan = BridgeController::delete_bridge("br7");
    assert_eq!(argv(&plan[0]), vec!["ip", "link", "set", "dev", "br7", "down"]);
    assert_eq!(argv(&plan[1]), vec!["brctl", "delbr", "br7"]);
    let through_bridge = Bridge::new("br7").delete();
    assert_eq!(argv(&through_bridge[0]), argv(&plan[0]));
    assert_eq!(argv(&through_bridge[1]), argv(&plan[1]));
}

#[test]
fn bridge_requests_carry_the_exact_tokens() {
    let bridge = Bridge::new("br0");
    assert_eq!(argv(&bridge.add_interface("eth2")), vec!["brctl", "addif", "br0", "eth2"]);
    assert_eq!(argv(&bridge.remove_interface("eth2")), vec!["brctl", "delif", "br0", "eth2"]);
    assert_eq!(
        argv(&bridge.set_hairpin("eth2", true)),
        vec!["brctl", "hairpin", "br0", "eth2", "on"]
    );
    assert_eq!(
        argv(&bridge.set_hairpin("eth2", false)),
        vec!["brctl", "hairpin", "br0", "eth2", "off"]
    );
    assert_eq!(argv(&bridge.set_stp(true)), vec!["brctl", "stp", "br0", "on"]);
    assert_eq!(argv(&bridge.set_stp(false)), vec!["brctl", "stp", "br0", "off"]);
    assert_eq!(argv(&bridge.set_ageing_time(300)), vec!["brctl", "setageing", "br0", "300"]);
    assert_eq!(argv(&bridge.show()), vec!["brctl", "show", "br0"]);
}

#[test]
fn controller_requests_carry_the_exact_tokens() {
    assert_eq!(argv(&BridgeController::list_request()), vec!["brctl", "show"]);
    assert_eq!(argv(&BridgeController::version_request()), vec!["brctl", "--version"]);
    assert_eq!(argv(&BridgeController::link_request()), vec!["ip", "link"]);
}

#[test]
fn lookup_by_id_finds_the_matching_bridge() {
    let listing = "bridge name  bridge id  STP enabled  interfaces\nbr0  17  yes  eth0\nbr1  42  no\n";
    let details = vec![
        "header\nbr0  17  yes\n".to_string(),
        "header\nbr1  42  no\n".to_string(),
    ];
    let found = BridgeController::get_bridge_by_id(42, listing, &details).unwrap().unwrap();
    assert_eq!(found.get_name(), "br1");
}

#[test]
fn lookup_by_id_absent_is_none() {
    let listing = "bridge name  bridge id  STP enabled  interfaces\nbr0  17  yes  eth0\n";
    let details = vec!["header\nbr0  17  yes\n".to_string()];
    assert!(BridgeController::get_bridge_by_id(99, listing, &details).unwrap().is_none());
}

#[test]
fn lookup_by_id_propagates_extraction_failure() {
    let listing = "bridge name  bridge id  STP enabled  interfaces\nbr0  17  yes  eth0\nbr1  42  no\n";
    let details = vec!["".to_string(), "header\nbr1  42  no\n".to_string()];
    let err = BridgeController::get_bridge_by_id(42, listing, &details).unwrap_err();
    match err {
        CommandError::ExecutionError(m) => assert_eq!(m, "Failed to get bridge ID"),
        CommandError::Io(_) => panic!("extraction failure must not be an I/O failure"),
    }
}
