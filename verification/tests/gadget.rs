use sentryusb::board::{board_for, Board, BoardId, GadgetBoard, GenericBoard, UdcFamily};
use sentryusb::gadget::{
    after_bind_attempt, backing_file, bind_plan, bind_udc, bind_udc_with, disable, disable_with, enable, enable_with,
    ensure_symlink, find_configfs_root, find_udc, format_size, gadget_dir, gadget_dir_is_complete,
    is_active,
    legacy_disable, legacy_enable, list_udc_names_for_bind, lun_file, release_step, udc_file,
    BindEvent, BindNext, DeviceFacts, EnablePlan, GadgetError, ImageFact, LinkAction, LinkEntry,
    Step,
};

const GADGET: &str = "/sys/kernel/config/usb_gadget/sentryusb";

fn absent() -> ImageFact {
    ImageFact { present: false, size: None, lun_file_present: false }
}

fn facts() -> DeviceFacts {
    DeviceFacts {
        gadget_exists: false,
        lun0_file: None,
        lun0_backing_exists: false,
        machine_id: Some("abc\n".to_string()),
        images: [
            ImageFact { present: true, size: Some(34_359_738_368), lun_file_present: true },
            absent(),
            ImageFact { present: true, size: None, lun_file_present: false },
            absent(),
        ],
    }
}

fn modprobe(args: &[&str]) -> Step {
    Step::Modprobe(args.iter().map(|s| s.to_string()).collect())
}

fn create(path: &str) -> Step {
    Step::CreateDir { path: path.to_string(), label: path.to_string() }
}

fn write(path: &str, content: &str) -> Step {
    Step::Write { path: path.to_string(), content: content.to_string() }
}

fn try_write(path: &str, content: &str) -> Step {
    Step::TryWrite { path: path.to_string(), content: content.to_string() }
}

fn at(rest: &str) -> String {
    format!("{}/{}", GADGET, rest)
}

fn names(v: &[&str]) -> Vec<String> {
    v.iter().map(|s| s.to_string()).collect()
}

fn rockchip() -> Board {
    board_for(&BoardId::from_parts("Radxa ZERO 3W / Rockchip RK3566", UdcFamily::Dwc3))
}

#[test]
fn configfs_is_found_in_the_mount_table() {
    let mounts = "proc /proc proc rw 0 0\nshort\nnone /sys/kernel/config configfs rw 0 0\n\
                  other /elsewhere configfs rw 0 0\n";
    let root = find_configfs_root(Some(mounts)).unwrap();
    assert_eq!(root, "/sys/kernel/config");
    assert_eq!(gadget_dir(&root), GADGET);
    assert_eq!(find_configfs_root(Some("proc /proc proc")), Err(GadgetError::ConfigfsNotMounted));
    assert_eq!(find_configfs_root(None), Err(GadgetError::MountsUnreadable));
}

#[test]
fn sizes_for_humans() {
    assert_eq!(format_size(0), "0B");
    assert_eq!(format_size(1023), "1023B");
    assert_eq!(format_size(1024), "1K");
    assert_eq!(format_size(1_048_575), "1023K");
    assert_eq!(format_size(1_048_576), "1M");
    assert_eq!(format_size(536_870_912), "512M");
    assert_eq!(format_size(34_359_738_368), "32G");
}

#[test]
fn fresh_gadget_is_built_in_order() {
    let plan = legacy_enable(GADGET, Some("Raspberry Pi 4 Model B"), &facts());
    let steps = match plan {
        EnablePlan::Build { clear, steps } => {
            assert_eq!(clear, vec![release_step()]);
            steps
        }
        EnablePlan::Rebind { .. } => panic!("nothing to rebind"),
    };
    let serial = "SentryUSB-ba7816bf8f01cfea414140de5dae2223b00361a396177a9cb410ff61f20015ad";
    let lun0 = at("functions/mass_storage.0/lun.0");
    let lun1 = at("functions/mass_storage.0/lun.1");
    assert_eq!(
        steps,
        vec![
            modprobe(&["libcomposite"]),
            modprobe(&["usb_f_mass_storage"]),
            create(&at("configs/c.1")),
            write(&at("idVendor"), "0x1d6b"),
            write(&at("idProduct"), "0x0104"),
            write(&at("bcdDevice"), "0x0100"),
            write(&at("bcdUSB"), "0x0200"),
            create(&at("strings/0x409")),
            create(&at("configs/c.1/strings/0x409")),
            write(&at("strings/0x409/serialnumber"), serial),
            write(&at("strings/0x409/manufacturer"), "SentryUSB"),
            write(&at("strings/0x409/product"), "SentryUSB Composite Gadget"),
            write(&at("configs/c.1/strings/0x409/configuration"), "SentryUSB Config"),
            write(&at("configs/c.1/MaxPower"), "500"),
            create(&at("functions/mass_storage.0")),
            Step::CreateDir { path: lun0.clone(), label: format!("lun.0 at {}", lun0) },
            write(&format!("{}/file", lun0), "/backingfiles/cam_disk.bin"),
            write(&format!("{}/inquiry_string", lun0), "SentryUSB CAM 32G"),
            Step::CreateDir { path: lun1.clone(), label: format!("lun.1 at {}", lun1) },
            write(&format!("{}/file", lun1), "/backingfiles/lightshow_disk.bin"),
            write(&format!("{}/inquiry_string", lun1), "SentryUSB LIGHTSHOW ?"),
            Step::Link {
                target: at("functions/mass_storage.0"),
                link: at("configs/c.1/mass_storage.0"),
            },
            Step::Sleep(3000),
        ]
    );
}

#[test]
fn complete_gadget_is_only_refreshed() {
    let mut f = facts();
    f.gadget_exists = true;
    f.lun0_file = Some("/backingfiles/cam_disk.bin\n".to_string());
    f.lun0_backing_exists = true;
    match legacy_enable(GADGET, None, &f) {
        EnablePlan::Rebind { steps } => {
            let file = lun_file(GADGET, 0);
            assert_eq!(
                steps,
                vec![
                    release_step(),
                    try_write(&file, "\n"),
                    Step::Sleep(1000),
                    try_write(&file, "/backingfiles/cam_disk.bin"),
                    Step::Sleep(3000),
                ]
            );
        }
        EnablePlan::Build { .. } => panic!("a complete gadget is kept"),
    }
}

#[test]
fn incomplete_gadget_is_torn_down_first() {
    let mut f = facts();
    f.gadget_exists = true;
    for (file, exists) in [(" \n", true), ("/backingfiles/cam_disk.bin\n", false)] {
        f.lun0_file = Some(file.to_string());
        f.lun0_backing_exists = exists;
        match legacy_enable(GADGET, None, &f) {
            EnablePlan::Build { clear, .. } => {
                let mut expected = vec![release_step()];
                expected.extend(legacy_disable(GADGET, true));
                assert_eq!(clear, expected);
            }
            EnablePlan::Rebind { .. } => panic!("an incomplete gadget is not kept"),
        }
    }
}

#[test]
fn completeness_needs_a_real_backing_file() {
    let file = Some("/backingfiles/cam_disk.bin\n");
    assert!(gadget_dir_is_complete(file, true));
    assert!(!gadget_dir_is_complete(file, false));
    assert!(!gadget_dir_is_complete(Some("\n"), true));
    assert!(!gadget_dir_is_complete(None, true));
    assert_eq!(backing_file(file), Some("/backingfiles/cam_disk.bin".to_string()));
    assert_eq!(backing_file(Some(" ")), None);
    assert_eq!(backing_file(None), None);
}

fn build_steps(plan: EnablePlan) -> Vec<Step> {
    match plan {
        EnablePlan::Build { steps, .. } => steps,
        EnablePlan::Rebind { steps } => steps,
    }
}

#[test]
fn both_paths_agree_where_the_current_does() {
    let generic = enable_with(&GenericBoard, GADGET, &facts());
    let fixed = legacy_enable(GADGET, Some("some board"), &facts());
    assert_eq!(build_steps(generic), build_steps(fixed));
    let pi = board_for(&BoardId::from_parts("Raspberry Pi 5", UdcFamily::Dwc2));
    assert_eq!(
        build_steps(enable_with(&pi, GADGET, &facts())),
        build_steps(legacy_enable(GADGET, Some("Raspberry Pi 5"), &facts()))
    );
    assert_eq!(
        disable_with(&rockchip(), GADGET, true),
        legacy_disable(GADGET, true)
    );
}

#[test]
fn dispatch_follows_the_flag() {
    let read = |p: &str| {
        if p == "/sys/firmware/devicetree/base/model" {
            Some("Raspberry Pi 4".to_string())
        } else {
            None
        }
    };
    let on = build_steps(enable(true, &Vec::new(), read, GADGET, None, &facts()));
    let off = build_steps(enable(false, &Vec::new(), read, GADGET, None, &facts()));
    assert!(on.contains(&write(&at("configs/c.1/MaxPower"), "500")));
    assert!(off.contains(&write(&at("configs/c.1/MaxPower"), "100")));
    let same = enable(false, &Vec::new(), read, GADGET, Some("Raspberry Pi 4"), &facts());
    assert_eq!(on, build_steps(same));
    assert_eq!(
        disable(true, &Vec::new(), read, GADGET, true),
        disable(false, &Vec::new(), read, GADGET, true)
    );
    assert_eq!(disable(false, &Vec::new(), read, GADGET, false), vec![release_step()]);
}

#[test]
fn teardown_in_order() {
    let steps = legacy_disable(GADGET, true);
    let lun = |n: u32| at(&format!("functions/mass_storage.0/lun.{}", n));
    let mut expected = vec![
        release_step(),
        try_write(&udc_file(GADGET), "\n"),
        Step::TryRemoveFile(at("configs/c.1/mass_storage.0")),
        Step::TryRemoveDir(at("configs/c.1/strings/0x409")),
        Step::TryRemoveDir(at("configs/c.1/strings/0x0409")),
    ];
    for n in 0..=4 {
        expected.push(try_write(&format!("{}/file", lun(n)), "\n"));
    }
    for n in 1..=4 {
        expected.push(Step::TryRemoveDir(lun(n)));
    }
    expected.extend([
        Step::TryRemoveDir(at("functions/mass_storage.0")),
        Step::TryRemoveDir(at("configs/c.1")),
        Step::TryRemoveDir(at("strings/0x409")),
        Step::TryRemoveDir(at("strings/0x0409")),
        Step::TryRemoveDir(GADGET.to_string()),
        modprobe(&[
            "-r",
            "usb_f_mass_storage",
            "g_ether",
            "usb_f_ecm",
            "usb_f_rndis",
            "libcomposite",
        ]),
    ]);
    assert_eq!(steps, expected);
    assert_eq!(legacy_disable(GADGET, false), vec![release_step()]);
    assert_eq!(release_step(), modprobe(&["-q", "-r", "g_mass_storage"]));
}

#[test]
fn every_built_directory_is_removed() {
    let built = build_steps(legacy_enable(GADGET, None, &facts()));
    let down = legacy_disable(GADGET, true);
    for step in built {
        match step {
            Step::CreateDir { path, .. } if !path.ends_with("lun.0") => {
                assert!(down.contains(&Step::TryRemoveDir(path)));
            }
            Step::Link { link, .. } => assert!(down.contains(&Step::TryRemoveFile(link))),
            _ => {}
        }
    }
}

#[test]
fn activity_needs_both_signals() {
    let none = |_: &str| None;
    let empty: Vec<String> = Vec::new();
    for flag in [false, true] {
        assert!(is_active(flag, &empty, none, Some("fe800000.usb\n"), Some("/a.bin\n")));
        assert!(!is_active(flag, &empty, none, Some("\n"), Some("/a.bin")));
        assert!(!is_active(flag, &empty, none, Some("fe800000.usb"), Some(" ")));
        assert!(!is_active(flag, &empty, none, None, Some("/a.bin")));
        assert!(!is_active(flag, &empty, none, Some("fe800000.usb"), None));
    }
}

#[test]
fn controllers_for_the_bind() {
    let listed = names(&["b.usb", "a.usb"]);
    assert_eq!(find_udc(Some(&listed)), Ok("b.usb".to_string()));
    assert_eq!(list_udc_names_for_bind(Some(&listed)), Ok(names(&["a.usb", "b.usb"])));
    assert_eq!(find_udc(Some(&Vec::new())), Err(GadgetError::NoUdc));
    assert_eq!(find_udc(None), Err(GadgetError::NoUdc));
    assert_eq!(list_udc_names_for_bind(None), Err(GadgetError::NoUdc));
}

#[test]
fn boards_bind_with_their_knobs() {
    let listed = names(&["xhci-hcd.0.auto", "fe800000.usb"]);
    let plan = bind_udc_with(&rockchip(), GADGET, Some(&listed)).ok().unwrap();
    assert_eq!(plan.udc, "fe800000.usb");
    assert_eq!(
        plan.before,
        vec![
            try_write("/sys/class/udc/fe800000.usb/device/maximum_speed", "high-speed"),
            try_write(&udc_file(GADGET), ""),
        ]
    );
    assert_eq!(
        plan.after,
        vec![try_write("/sys/class/udc/fe800000.usb/device/soft_connect", "connect")]
    );

    let plan = bind_udc(GADGET, Some(&listed)).ok().unwrap();
    assert_eq!(plan.udc, "xhci-hcd.0.auto");
    assert_eq!(plan.before, vec![try_write(&udc_file(GADGET), "")]);
    assert!(plan.after.is_empty());
}

#[test]
fn board_that_binds_nothing_says_so() {
    let board = rockchip();
    let listed = names(&["xhci-hcd.1.auto", "xhci-hcd.0.auto"]);
    let err = bind_udc_with(&board, GADGET, Some(&listed)).err().unwrap();
    assert_eq!(
        err,
        GadgetError::NoUdcSelected {
            board: board.name().to_string(),
            names: names(&["xhci-hcd.0.auto", "xhci-hcd.1.auto"]),
        }
    );
    assert_eq!(bind_udc_with(&board, GADGET, None).err(), Some(GadgetError::NoUdc));
}

#[test]
fn bind_retries_until_the_fifth_attempt() {
    let kept = BindEvent::ReadBack("fe800000.usb\n".to_string());
    let lost = BindEvent::ReadBack(" \n".to_string());
    let refused = BindEvent::WriteFailed("busy".to_string());
    for attempt in 1..=5 {
        assert!(matches!(
            after_bind_attempt(GADGET, "fe800000.usb", attempt, &kept),
            BindNext::Bound
        ));
        assert!(matches!(
            after_bind_attempt(GADGET, "fe800000.usb", attempt, &BindEvent::Unreadable),
            BindNext::Bound
        ));
    }
    for attempt in 1..=4 {
        for event in [&lost, &refused] {
            match after_bind_attempt(GADGET, "fe800000.usb", attempt, event) {
                BindNext::Retry { attempt: next, steps } => {
                    assert_eq!(next, attempt + 1);
                    assert_eq!(
                        steps,
                        vec![try_write(&udc_file(GADGET), ""), Step::Sleep(500)]
                    );
                }
                _ => panic!("attempt {} is retried", attempt),
            }
        }
    }
    match after_bind_attempt(GADGET, "fe800000.usb", 5, &lost) {
        BindNext::GiveUp(e) => assert_eq!(
            e,
            GadgetError::BindRejected { udc: "fe800000.usb".to_string(), readback: String::new() }
        ),
        _ => panic!("the fifth attempt is the last"),
    }
    match after_bind_attempt(GADGET, "fe800000.usb", 5, &refused) {
        BindNext::GiveUp(e) => assert_eq!(
            e,
            GadgetError::BindFailed { udc: "fe800000.usb".to_string(), cause: "busy".to_string() }
        ),
        _ => panic!("the fifth attempt is the last"),
    }
}

#[test]
fn links_are_replaced() {
    assert_eq!(ensure_symlink(&LinkEntry::Present), LinkAction::Replace);
    assert_eq!(ensure_symlink(&LinkEntry::Missing), LinkAction::Create);
    assert_eq!(ensure_symlink(&LinkEntry::Unknown), LinkAction::Fail);
}

#[test]
fn composite_module_goes_last() {
    match disable_with(&rockchip(), GADGET, true).last() {
        Some(Step::Modprobe(args)) => {
            assert_eq!(args.last().map(String::as_str), Some("libcomposite"));
            assert_eq!(args.iter().filter(|a| *a == "libcomposite").count(), 1);
            for module in rockchip().load_modules() {
                assert!(args.iter().any(|a| a == module));
            }
        }
        other => panic!("{:?}", other),
    }
}

#[test]
fn no_board_is_worse_than_generic() {
    for (model, family) in [
        ("Raspberry Pi 5", UdcFamily::Dwc2),
        ("Raspberry Pi Zero W", UdcFamily::Dwc2),
        ("Radxa ZERO 3W / Rockchip RK3566", UdcFamily::Dwc3),
        ("unknown", UdcFamily::Other),
    ] {
        let board = board_for(&BoardId::from_parts(model, family));
        assert_eq!(board.load_modules(), GenericBoard.load_modules());
        assert_eq!(board.lun_settle_ms(), GenericBoard.lun_settle_ms());
        assert!(board.max_power_ma() >= GenericBoard.max_power_ma());
    }
}

#[test]
fn built_gadget_is_kept_by_the_next_enable() {
    let mut f = facts();
    assert!(f.is_digestible());
    f.images[0] = absent();
    let built = build_steps(legacy_enable(GADGET, None, &f));
    let file = built.iter().find_map(|s| match s {
        Step::Write { path, content } if *path == lun_file(GADGET, 0) => Some(content.clone()),
        _ => None,
    });
    assert_eq!(file.as_deref(), Some("/backingfiles/lightshow_disk.bin"));
    f.gadget_exists = true;
    f.lun0_file = file;
    f.lun0_backing_exists = true;
    assert!(matches!(legacy_enable(GADGET, None, &f), EnablePlan::Rebind { .. }));
}

#[test]
fn first_wins_boards_bind_as_the_hardcoded_path() {
    let listed = names(&["b.usb", "a.usb"]);
    let fixed = bind_udc(GADGET, Some(&listed)).ok().unwrap();
    assert_eq!(fixed.udc, "b.usb");
    let pi = board_for(&BoardId::from_parts("Raspberry Pi 4", UdcFamily::Dwc2));
    let generic = bind_udc_with(&GenericBoard, GADGET, Some(&listed)).ok().unwrap();
    let pi = bind_udc_with(&pi, GADGET, Some(&listed)).ok().unwrap();
    for plan in [generic, pi] {
        assert_eq!(plan.udc, fixed.udc);
        assert_eq!(plan.before, fixed.before);
        assert_eq!(plan.after, fixed.after);
    }
    assert_eq!(
        bind_udc_with(&rockchip(), GADGET, Some(&listed)).ok().unwrap().udc,
        "a.usb"
    );
}

#[test]
fn bind_plan_follows_the_flag() {
    let read = |p: &str| {
        if p == "/sys/firmware/devicetree/base/model" {
            Some("Radxa ZERO 3W".to_string())
        } else if p == "/sys/class/udc/fe800000.usb/uevent" {
            Some("DRIVER=dwc3\n".to_string())
        } else {
            None
        }
    };
    let listed = names(&["xhci-hcd.0.auto", "fe800000.usb"]);
    let on = bind_plan(true, &listed, read, GADGET, Some(&listed)).ok().unwrap();
    let off = bind_plan(false, &listed, read, GADGET, Some(&listed)).ok().unwrap();
    assert_eq!(on.udc, "fe800000.usb");
    assert_eq!(off.udc, "xhci-hcd.0.auto");
    assert_eq!(bind_plan(true, &listed, read, GADGET, None).err(), Some(GadgetError::NoUdc));
}
