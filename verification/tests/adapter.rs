use sentryusb::adapter::{
    detect_topology, list_adapters, topology_from_adapters, DualRadio, RadioTopology, SingleRadio,
};

fn names(v: &[&str]) -> Vec<String> {
    v.iter().map(|s| s.to_string()).collect()
}

#[test]
fn single_adapter_uses_it_as_car() {
    let t = topology_from_adapters(&names(&["hci0"]), None);
    assert_eq!(t.car_adapter(), "hci0");
    assert_eq!(t.phone_adapter(), "hci0");
    assert!(t.phone_contends_with_car(), "single radio => phone contends");
}

#[test]
fn configured_car_adapter_wins_when_present() {
    let t = topology_from_adapters(&names(&["hci0", "hci1"]), Some("hci1"));
    assert_eq!(t.car_adapter(), "hci1");
}

#[test]
fn configured_car_adapter_ignored_when_absent() {
    let t = topology_from_adapters(&names(&["hci0"]), Some("hci1"));
    assert_eq!(t.car_adapter(), "hci0");
}

#[test]
fn no_adapters_falls_back_to_default() {
    let t = topology_from_adapters(&[], None);
    assert_eq!(t.car_adapter(), "hci0");
    assert!(t.phone_contends_with_car());
}

#[test]
fn two_adapters_still_single_radio_until_dual_is_proven() {
    let t = topology_from_adapters(&names(&["hci0", "hci1"]), None);
    assert!(
        t.phone_contends_with_car(),
        "DualRadio is a stub; detect must fall through to SingleRadio",
    );
}

#[test]
fn never_hardcodes_hci0_when_only_a_dongle_is_present() {
    let t = topology_from_adapters(&names(&["hci1"]), None);
    assert_eq!(t.car_adapter(), "hci1");
}

#[test]
fn list_adapters_reads_present_controllers_sorted() {
    let entries = names(&["hci1", "hci0", "rfkill"]);
    assert_eq!(
        list_adapters(Some(&entries)),
        names(&["hci0", "hci1"]),
        "sorted, hci-only"
    );
}

#[test]
fn list_adapters_missing_root_is_empty() {
    assert!(list_adapters(None).is_empty());
}

#[test]
fn detect_from_fixture_dir_picks_dongle_when_configured() {
    let present = list_adapters(Some(&names(&["hci0", "hci1"])));
    let t = topology_from_adapters(&present, Some("hci1"));
    assert_eq!(t.car_adapter(), "hci1");
}

#[test]
fn detection_ignores_the_order_of_the_listing() {
    let a = names(&["hci2", "rfkill", "hci1"]);
    let b = names(&["hci1", "hci2", "rfkill"]);
    assert_eq!(detect_topology(Some(&a), None).car_adapter(), "hci1");
    assert_eq!(detect_topology(Some(&b), None).car_adapter(), "hci1");
    assert_eq!(detect_topology(None, Some("hci1")).car_adapter(), "hci0");
}

#[test]
fn dual_radio_keeps_the_links_apart() {
    let t = DualRadio::new("hci0", "hci1");
    assert_eq!(t.car_adapter(), "hci0");
    assert_eq!(t.phone_adapter(), "hci1");
    assert!(!t.phone_contends_with_car());
    assert!(SingleRadio::new("hci0").phone_contends_with_car());
}
