use sentryusb::board::{board_for, BoardId, Dwc3RockchipBoard, GadgetBoard, GenericBoard, UdcFamily};
use sentryusb::early_bind::{
    install_early_bind, remove_early_bind, EarlyBindRefusal, Removal, BIND_SCRIPT,
    BIND_SCRIPT_PATH, HOOK_PATH, HOOK_SCRIPT,
};

#[test]
fn hook_rechecks_experimental_flag() {
    assert!(
        HOOK_SCRIPT.contains("SENTRYUSB_EXPERIMENTAL"),
        "rendered hook must re-read SENTRYUSB_EXPERIMENTAL at boot"
    );
    assert!(HOOK_SCRIPT.contains("exit 0"));
    assert!(HOOK_SCRIPT.starts_with("#!/bin/sh"));
}

#[test]
fn bind_script_rechecks_experimental_flag() {
    assert!(
        BIND_SCRIPT.contains("SENTRYUSB_EXPERIMENTAL"),
        "rendered bind script must re-read SENTRYUSB_EXPERIMENTAL at boot"
    );
    assert!(BIND_SCRIPT.contains("/sys/kernel/config/usb_gadget/sentryusb"));
    assert!(BIND_SCRIPT.starts_with("#!/bin/sh"));
}

#[test]
fn hook_golden_snapshot_stable() {
    assert!(HOOK_SCRIPT.contains("hook-functions"));
    assert!(HOOK_SCRIPT
        .contains("copy_exec /etc/initramfs-tools/scripts/init-top/sentryusb-gadget"));
    assert!(HOOK_SCRIPT.contains("prereqs) prereqs; exit 0 ;;"));
}

#[test]
fn install_refused_for_generic_board() {
    let board = GenericBoard;
    assert_eq!(
        install_early_bind(&board).err(),
        Some(EarlyBindRefusal::Unsupported)
    );
}

#[test]
fn install_refused_for_rockchip_board_today() {
    let board = Dwc3RockchipBoard::from_model("Radxa ROCK 4C Plus / Rockchip RK3399");
    assert!(!board.supports_early_bind());
    assert_eq!(
        install_early_bind(&board).err(),
        Some(EarlyBindRefusal::Unsupported)
    );
}

#[test]
fn install_refused_for_every_selected_board() {
    for (model, family) in [
        ("Raspberry Pi 4 Model B", UdcFamily::Dwc2),
        ("Radxa ZERO 3W / Rockchip RK3566", UdcFamily::Dwc3),
        ("", UdcFamily::Other),
    ] {
        let board = board_for(&BoardId::from_parts(model, family));
        assert!(install_early_bind(&board).is_err());
    }
    assert_eq!(
        EarlyBindRefusal::Unsupported.message(),
        "early-bind refused: board not validated for cold-cold early-bind"
    );
}

#[test]
fn remove_early_bind_is_idempotent_when_absent() {
    remove_early_bind(|_: &str| Removal::Missing)
        .expect("removing absent early-bind files must be Ok");
}

#[test]
fn removal_stops_at_the_first_failure() {
    let res = remove_early_bind(|p: &str| {
        if p == HOOK_PATH {
            Removal::Failed("denied".to_string())
        } else {
            panic!("the second file must not be touched")
        }
    });
    assert_eq!(res, Err("denied".to_string()));
    let res = remove_early_bind(|p: &str| {
        if p == BIND_SCRIPT_PATH {
            Removal::Failed("busy".to_string())
        } else {
            Removal::Removed
        }
    });
    assert_eq!(res, Err("busy".to_string()));
}

#[test]
fn removal_touches_the_two_files_only() {
    let asked = std::cell::RefCell::new(Vec::new());
    remove_early_bind(|p: &str| {
        asked.borrow_mut().push(p.to_string());
        Removal::Removed
    })
    .unwrap();
    assert_eq!(*asked.borrow(), vec![HOOK_PATH, BIND_SCRIPT_PATH]);
}
