use sentryusb::setup::{
    check_available_space, check_available_space_sd, check_card_space, check_drive_size,
    check_drive_type, check_existing_partition, check_required_config, check_supported_hardware,
    chosen_message, count_links, device_size, early_verify, free_space, parse_bytes_from_line, probe_args,
    probe_backing_fs, verify_disk_space, verify_udc, BackingFs, PiModel, ProbeAction, ProbeState,
    SdQuery, SetupEnv, SetupError, SpaceCheck, CAM_SIZE_MISSING, MIN_SD_SPACE_BYTES,
    MIN_USB_SIZE_BYTES,
};

fn env_with(pairs: &[(&str, &str)]) -> SetupEnv {
    SetupEnv {
        pi_model: PiModel::Other,
        boot_path: String::new(),
        cmdline_path: None,
        piconfig_path: None,
        boot_disk: None,
        root_partition: None,
        data_drive: None,
        config: pairs
            .iter()
            .map(|(k, v)| (k.to_string(), v.to_string()))
            .collect(),
    }
}

fn transient(message: &str) -> SetupError {
    SetupError::Transient(message.to_string())
}

#[test]
fn missing_cam_size_is_a_config_error() {
    let env = env_with(&[]);
    let err = check_required_config(&env).unwrap_err();
    assert!(
        matches!(err, SetupError::Config(_)),
        "missing CAM_SIZE must be a ConfigError, got: {err:?}"
    );
    assert_eq!(err.message(), CAM_SIZE_MISSING);
}

#[test]
fn empty_cam_size_passes() {
    assert_eq!(check_required_config(&env_with(&[("A", "1"), ("CAM_SIZE", "")])), Ok(()));
}

#[test]
fn nonexistent_data_drive_stays_transient() {
    let mut env = env_with(&[]);
    env.data_drive = Some("/no/such/sentryusb/drive".to_string());
    let err = check_available_space(&env, false).unwrap_err();
    assert!(
        !matches!(err, SetupError::Config(_)),
        "nonexistent DATA_DRIVE must stay transient (self-heals on retry), got ConfigError: {err:?}"
    );
    assert_eq!(
        err,
        transient("STOP: DATA_DRIVE is set to /no/such/sentryusb/drive, which does not exist.")
    );
}

#[test]
fn parse_bytes_picks_trailing_number_before_bytes() {
    let line = "Unpartitioned space /dev/mmcblk0: 10737418240 bytes, 10.7 GiB";
    assert_eq!(parse_bytes_from_line(line), Some(10_737_418_240));
}

#[test]
fn parse_bytes_none_when_absent() {
    assert_eq!(parse_bytes_from_line("no bytes here"), None);
    assert_eq!(
        parse_bytes_from_line("/dev/mmcblk0 30GB"),
        None,
        "no `bytes` substring → no match"
    );
}

#[test]
fn parse_bytes_handles_leading_text() {
    assert_eq!(
        parse_bytes_from_line("size: 123456789 bytes total"),
        Some(123_456_789)
    );
}

#[test]
fn parse_bytes_edges() {
    assert_eq!(parse_bytes_from_line("18446744073709551615 bytes"), Some(u64::MAX));
    assert_eq!(parse_bytes_from_line("18446744073709551616 bytes"), None);
    assert_eq!(parse_bytes_from_line("x bytes, 12 bytes"), Some(12));
    assert_eq!(parse_bytes_from_line("free bytes: 42 bytes"), Some(42));
    assert_eq!(parse_bytes_from_line("1 bytes, 2 bytes"), Some(1));
    assert_eq!(parse_bytes_from_line("3 byte"), None);
    assert_eq!(parse_bytes_from_line(" bytes"), None);
    assert_eq!(parse_bytes_from_line(""), None);
    assert_eq!(parse_bytes_from_line("+7 bytes"), Some(7));
}

#[test]
fn free_space_is_the_first_report() {
    assert_eq!(free_space("Disk\nfree: 12 bytes\nfree: 34 bytes\n"), 12);
    assert_eq!(free_space("nothing"), 0);
    assert_eq!(device_size(" 4096\n"), 4096);
    assert_eq!(device_size("n/a"), 0);
}

#[test]
fn hardware_gate() {
    let mut env = env_with(&[("CAM_SIZE", "32")]);
    for model in [PiModel::Pi5, PiModel::Pi4, PiModel::Pi3, PiModel::PiZero2, PiModel::Other] {
        env.pi_model = model;
        assert_eq!(check_supported_hardware(&env), Ok(()));
        let verdict = early_verify(&env);
        assert!(verdict.probes);
        assert_eq!(verdict.outcome, Ok(()));
    }
    env.pi_model = PiModel::PiZeroW;
    let verdict = early_verify(&env);
    assert!(!verdict.probes);
    assert_eq!(
        verdict.outcome,
        Err(transient(
            "STOP: unsupported hardware: Raspberry Pi Zero W. \
             SentryUSB requires Pi Zero 2 W or newer (Pi 3, Pi 4, Pi 5)."
        ))
    );
    env.pi_model = PiModel::Pi2;
    assert_eq!(
        check_supported_hardware(&env),
        Err(transient(
            "STOP: unsupported hardware: Raspberry Pi 2. \
             (only Pi Zero 2 W, Pi 3, Pi 4, and Pi 5 have the necessary hardware to run SentryUSB)"
        ))
    );
    let verdict = early_verify(&env_with(&[]));
    assert!(verdict.probes);
    assert!(matches!(verdict.outcome, Err(SetupError::Config(_))));
}

#[test]
fn udc_check() {
    assert_eq!(count_links(&vec![true, false, true]), 2);
    assert_eq!(verify_udc(Some(&vec![false, true]), None), Ok(()));
    assert!(verify_udc(None, None).is_err());
    assert!(verify_udc(Some(&Vec::new()), None).is_err());
    assert_eq!(
        verify_udc(Some(&vec![false]), Some("Raspberry Pi 4\0\n")),
        Err(transient(
            "STOP: this device (Raspberry Pi 4) does not have a UDC driver. \
             Check that dtoverlay=dwc2 is in the correct section of config.txt for your Pi model"
        ))
    );
}

#[test]
fn backing_fs_tables() {
    assert_eq!(BackingFs::XfsReflink.fstype(), "xfs");
    assert_eq!(BackingFs::XfsPlain.fstype(), "xfs");
    assert_eq!(BackingFs::Btrfs.fstype(), "btrfs");
    assert_eq!(BackingFs::Ext4.fstype(), "ext4");
    assert_eq!(BackingFs::Ext4.mkfs_bin(), "mkfs.ext4");
    assert_eq!(BackingFs::XfsPlain.mkfs_bin(), "mkfs.xfs");
    assert!(BackingFs::XfsReflink.is_cow() && BackingFs::Btrfs.is_cow());
    assert!(!BackingFs::XfsPlain.is_cow() && !BackingFs::Ext4.is_cow());
    assert_eq!(
        BackingFs::XfsPlain.mkfs_args("/dev/sda1"),
        vec![
            "-f", "-K", "-m", "reflink=0,bigtime=0,inobtcount=0", "-L", "backingfiles",
            "/dev/sda1"
        ]
    );
    assert_eq!(
        BackingFs::Ext4.mkfs_args("x"),
        vec!["-F", "-L", "backingfiles", "x"]
    );
    assert_eq!(probe_args(BackingFs::Btrfs, "img"), vec!["-q", "-f", "img"]);
    assert_eq!(
        probe_args(BackingFs::XfsReflink, "img"),
        vec!["-q", "-f", "-m", "reflink=1", "img"]
    );
    assert_eq!(
        chosen_message(BackingFs::Btrfs),
        "Backing filesystem: Btrfs (copy-on-write snapshots — no XFS in this kernel)"
    );
}

fn run_probe(tools: &[&str], scratch: bool, mounts: &[BackingFs]) -> (BackingFs, usize) {
    let mut state = probe_backing_fs();
    let mut reports = 0;
    loop {
        let ok = match state.action() {
            ProbeAction::Which(bin) => tools.contains(&bin),
            ProbeAction::Install { .. } => false,
            ProbeAction::MakeScratch => scratch,
            ProbeAction::Mount(fs) => mounts.contains(&fs),
            ProbeAction::Finish(fs) => return (fs, reports),
        };
        reports += 1;
        state = state.next(ok);
    }
}

#[test]
fn probe_follows_the_order_of_preference() {
    let both = ["mkfs.xfs", "mkfs.btrfs"];
    let all = [BackingFs::XfsReflink, BackingFs::XfsPlain, BackingFs::Btrfs];
    assert_eq!(run_probe(&both, true, &all).0, BackingFs::XfsReflink);
    assert_eq!(run_probe(&both, true, &all[1..]).0, BackingFs::XfsPlain);
    assert_eq!(run_probe(&both, true, &all[2..]).0, BackingFs::Btrfs);
    assert_eq!(run_probe(&["mkfs.xfs"], true, &all[1..]).0, BackingFs::XfsPlain);
    assert_eq!(run_probe(&["mkfs.xfs"], true, &all[2..]).0, BackingFs::Ext4);
    assert_eq!(run_probe(&both, true, &[]).0, BackingFs::Ext4);
    assert_eq!(run_probe(&["mkfs.btrfs"], true, &all).0, BackingFs::Btrfs);
    assert_eq!(run_probe(&[], true, &all).0, BackingFs::Ext4);
    assert_eq!(run_probe(&both, false, &all).0, BackingFs::Ext4);
    assert!(run_probe(&[], true, &all).1 <= 10);
    assert_eq!(
        ProbeState::FindXfs.next(false).action(),
        ProbeAction::Install {
            package: "xfsprogs",
            message: "Installing xfsprogs (this can take 30-60 seconds)...",
        }
    );
}

#[test]
fn space_on_the_card() {
    let mut env = env_with(&[]);
    assert_eq!(verify_disk_space(&env, false), Ok(SpaceCheck::Sd));
    assert_eq!(
        check_available_space_sd(&env, true, true),
        Ok(SdQuery::PartitionSize)
    );
    assert_eq!(
        check_available_space_sd(&env, true, false),
        Err(transient("check_available_space_sd: BOOT_DISK is not set"))
    );
    env.boot_disk = Some("/dev/mmcblk0".to_string());
    assert_eq!(
        check_available_space_sd(&env, false, true),
        Ok(SdQuery::FreeSpace("/dev/mmcblk0".to_string()))
    );
    assert_eq!(MIN_SD_SPACE_BYTES, 8 << 30);
    assert_eq!(check_existing_partition("8589934592\n"), Ok(()));
    assert_eq!(
        check_existing_partition("8589934591\n"),
        Err(transient(
            "STOP: Existing backingfiles partition is too small (7GB, need at least 8GB)"
        ))
    );
    assert_eq!(check_card_space(MIN_SD_SPACE_BYTES, ""), Ok(()));
    assert_eq!(
        check_card_space(5 << 30, "listing"),
        Err(transient(
            "STOP: The MicroSD card is too small: 5GB available, need at least 8GB.\nlisting"
        ))
    );
}

#[test]
fn space_on_the_drive() {
    let mut env = env_with(&[]);
    env.data_drive = Some("/dev/sda".to_string());
    let check = check_available_space(&env, true).unwrap();
    assert_eq!(check, SpaceCheck::Usb("/dev/sda".to_string()));
    assert_eq!(
        check.announcement(),
        "DATA_DRIVE is set to /dev/sda. This will be used for /mutable and /backingfiles."
    );
    assert_eq!(
        SpaceCheck::Sd.announcement(),
        "DATA_DRIVE is not set. SD card will be used."
    );
    assert_eq!(check_drive_type("/dev/sda", " disk \npart\n"), Ok(()));
    assert_eq!(
        check_drive_type("/dev/sda1", "part\n"),
        Err(transient(
            "STOP: The specified drive (/dev/sda1) is not a disk (TYPE=part). \
             Please specify path to the disk."
        ))
    );
    assert_eq!(MIN_USB_SIZE_BYTES, 59 << 30);
    assert_eq!(check_drive_size(MIN_USB_SIZE_BYTES, ""), Ok(()));
    assert_eq!(
        check_drive_size(MIN_USB_SIZE_BYTES - 1, "p"),
        Err(transient(
            "STOP: The USB drive is too small: 58GB available. Expected at least 64GB\np"
        ))
    );
}
