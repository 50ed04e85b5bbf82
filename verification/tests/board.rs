use sentryusb::board::{
    board_for, classify_udc_family, pi_max_power_ma, select_board, Board, BoardId,
    Dwc3RockchipBoard, GadgetBoard, GenericBoard, UdcFamily, MODEL_PATH, UDC_DIR,
};

#[test]
fn udc_family_from_uevent_dwc2() {
    let uevent = "USB_UDC_NAME=20980000.usb\nDRIVER=dwc2\n";
    assert_eq!(UdcFamily::from_uevent_contents(uevent), UdcFamily::Dwc2);
}

#[test]
fn udc_family_from_uevent_dwc3() {
    let uevent = "DRIVER=dwc3\nUSB_UDC_NAME=fe800000.usb\n";
    assert_eq!(UdcFamily::from_uevent_contents(uevent), UdcFamily::Dwc3);
}

#[test]
fn udc_family_from_uevent_unknown() {
    assert_eq!(
        UdcFamily::from_uevent_contents("DRIVER=somethingelse\n"),
        UdcFamily::Other
    );
    assert_eq!(UdcFamily::from_uevent_contents(""), UdcFamily::Other);
}

fn fixture_reader(map: Vec<(&'static str, &'static str)>) -> impl Fn(&str) -> Option<String> {
    move |p: &str| {
        for (suffix, contents) in &map {
            if p.contains(suffix) {
                return Some((*contents).to_string());
            }
        }
        None
    }
}

#[test]
fn classify_single_dwc2() {
    let names = vec!["20980000.usb".to_string()];
    let reader = fixture_reader(vec![("20980000.usb", "DRIVER=dwc2\n")]);
    assert_eq!(
        classify_udc_family("/sys/class/udc", &names, reader),
        UdcFamily::Dwc2
    );
}

#[test]
fn classify_dwc3_wins_over_host() {
    let names = vec!["fe800000.usb".to_string(), "xhci-hcd.0.auto".to_string()];
    let reader = fixture_reader(vec![
        ("fe800000.usb", "DRIVER=dwc3\n"),
        ("xhci-hcd.0.auto", "DRIVER=xhci-hcd\n"),
    ]);
    assert_eq!(
        classify_udc_family("/sys/class/udc", &names, reader),
        UdcFamily::Dwc3
    );
}

#[test]
fn classify_empty_is_other() {
    assert_eq!(
        classify_udc_family("/sys/class/udc", &[], |_: &str| None),
        UdcFamily::Other
    );
}

#[test]
fn detect_maps_raspberry_pi() {
    let id = BoardId::from_parts("Raspberry Pi 4 Model B Rev 1.4", UdcFamily::Dwc2);
    assert!(id.is_raspberry_pi());
    assert!(!id.is_rockchip_dwc3());
    let board = board_for(&id);
    assert_eq!(board.max_power_ma(), 500);
    assert_eq!(board.max_speed(), None);
    assert!(!board.needs_soft_connect());
    assert!(!board.supports_early_bind());
}

#[test]
fn detect_maps_pi5_power() {
    let id = BoardId::from_parts("Raspberry Pi 5 Model B", UdcFamily::Dwc2);
    assert_eq!(board_for(&id).max_power_ma(), 600);
}

#[test]
fn detect_maps_pi_zero2_power() {
    let id = BoardId::from_parts("Raspberry Pi Zero 2 W", UdcFamily::Dwc2);
    assert_eq!(board_for(&id).max_power_ma(), 200);
}

#[test]
fn detect_maps_rk3399_dwc3() {
    let id = BoardId::from_parts("Radxa ROCK 4C Plus / Rockchip RK3399", UdcFamily::Dwc3);
    assert!(!id.is_raspberry_pi());
    assert!(id.is_rockchip_dwc3());
    let board = board_for(&id);
    assert_eq!(board.max_speed(), Some("high-speed"));
    assert!(board.needs_soft_connect());
    assert_eq!(board.max_power_ma(), 100);
    assert_eq!(board.lun_settle_ms(), 3000);
    assert!(!board.supports_early_bind());
}

#[test]
fn detect_maps_rk3566_dwc3() {
    let id = BoardId::from_parts("Radxa ZERO 3W / Rockchip RK3566", UdcFamily::Dwc3);
    assert!(id.is_rockchip_dwc3());
    assert_eq!(board_for(&id).max_speed(), Some("high-speed"));
}

#[test]
fn rockchip_name_without_dwc3_is_generic() {
    let id = BoardId::from_parts("Some Rockchip Board", UdcFamily::Other);
    assert!(!id.is_rockchip_dwc3());
    let board = board_for(&id);
    assert_eq!(board.max_speed(), None);
    assert!(!board.needs_soft_connect());
    assert_eq!(board.max_power_ma(), 100);
}

#[test]
fn detect_maps_unknown_to_generic() {
    let id = BoardId::from_parts("", UdcFamily::Other);
    assert!(!id.is_raspberry_pi());
    assert!(!id.is_rockchip_dwc3());
    let board = board_for(&id);
    assert_eq!(board.max_power_ma(), 100);
    assert_eq!(
        board.load_modules(),
        vec!["libcomposite", "usb_f_mass_storage"]
    );
    assert_eq!(board.lun_settle_ms(), 3000);
    assert_eq!(board.max_speed(), None);
    assert!(!board.needs_soft_connect());
    assert!(!board.supports_early_bind());
}

#[test]
fn pi_model_with_pi_substring_is_not_rockchip() {
    let id = BoardId::from_parts("Radxa ROCK Pi 4 / Rockchip RK3399", UdcFamily::Dwc3);
    assert!(!id.is_raspberry_pi());
    assert!(id.is_rockchip_dwc3());
}

#[test]
fn select_udc_prefers_dwc3_named() {
    let names = vec!["xhci-hcd.0.auto".to_string(), "dwc3-gadget".to_string()];
    assert_eq!(
        Dwc3RockchipBoard::select_peripheral_udc(&names),
        Some("dwc3-gadget".to_string())
    );
}

#[test]
fn select_udc_excludes_xhci_host_when_dwc3_unnamed() {
    let names = vec!["xhci-hcd.0.auto".to_string(), "fe800000.usb".to_string()];
    assert_eq!(
        Dwc3RockchipBoard::select_peripheral_udc(&names),
        Some("fe800000.usb".to_string())
    );
}

#[test]
fn select_udc_refuses_when_only_host_present() {
    let names = vec!["xhci-hcd.0.auto".to_string()];
    assert_eq!(Dwc3RockchipBoard::select_peripheral_udc(&names), None);
}

#[test]
fn select_udc_empty_is_none() {
    assert_eq!(Dwc3RockchipBoard::select_peripheral_udc(&[]), None);
}

#[test]
fn generic_select_udc_sole_entry() {
    let board = GenericBoard;
    assert_eq!(
        board.select_udc(&["20980000.usb".to_string()]),
        Some("20980000.usb".to_string())
    );
}

#[test]
fn generic_select_udc_is_first_wins_like_legacy() {
    let board = GenericBoard;
    assert_eq!(
        board.select_udc(&["a".to_string(), "b".to_string()]),
        Some("a".to_string())
    );
}

#[test]
fn generic_select_udc_empty_is_none() {
    assert_eq!(GenericBoard.select_udc(&[]), None);
}

#[test]
fn detect_reads_model_and_family() {
    let entries = vec!["xhci-hcd.0.auto".to_string(), "fe800000.usb".to_string()];
    let read = |p: &str| {
        if p == MODEL_PATH {
            Some("Radxa ZERO 3W / Rockchip RK3566\0\n".to_string())
        } else if p == "/sys/class/udc/fe800000.usb/uevent" {
            Some("DRIVER=dwc3\n".to_string())
        } else {
            None
        }
    };
    let id = BoardId::detect(&entries, read);
    assert_eq!(id.model, "Radxa ZERO 3W / Rockchip RK3566");
    assert_eq!(id.udc_family, UdcFamily::Dwc3);
    assert!(matches!(select_board(&entries, read), Board::Rockchip(_)));
    assert_eq!(UDC_DIR, "/sys/class/udc");
}

#[test]
fn unreadable_device_is_the_generic_board() {
    let board = select_board(&Vec::new(), |_: &str| None);
    assert!(matches!(board, Board::Generic(_)));
}

#[test]
fn raspberry_pi_is_a_prefix() {
    let clone = BoardId::from_parts("Clone of Raspberry Pi 4", UdcFamily::Other);
    assert!(!clone.is_raspberry_pi());
    assert!(matches!(board_for(&clone), Board::Generic(_)));
    assert!(BoardId::from_parts("RASPBERRY PI 4", UdcFamily::Other).is_raspberry_pi());
}

#[test]
fn only_rockchip_selects_by_role() {
    assert!(!GenericBoard.selects_by_role());
    assert!(Dwc3RockchipBoard::from_model("Radxa").selects_by_role());
    let pi = BoardId::from_parts("Raspberry Pi 4", UdcFamily::Dwc2);
    assert!(!board_for(&pi).selects_by_role());
}

#[test]
fn pi_power_ladder() {
    assert_eq!(pi_max_power_ma("Raspberry Pi 5"), 600);
    assert_eq!(pi_max_power_ma("Raspberry Pi 4"), 500);
    assert_eq!(pi_max_power_ma("Raspberry Pi 3"), 300);
    assert_eq!(pi_max_power_ma("Raspberry Pi 2"), 200);
    assert_eq!(pi_max_power_ma("Raspberry Pi Zero 2 W"), 200);
    assert_eq!(pi_max_power_ma("Raspberry Pi Zero W"), 100);
}

#[test]
fn rockchip_takes_dwc3_wherever_it_stands() {
    let board = Dwc3RockchipBoard::from_model("Radxa");
    let names: Vec<String> = ["fe800000.usb", "xhci-hcd", "FD000000.DWC3"]
        .iter()
        .map(|s| s.to_string())
        .collect();
    assert_eq!(board.select_udc(&names), Some("FD000000.DWC3".to_string()));
}
