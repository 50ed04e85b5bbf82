use sentryusb::board::pi_max_power_ma;
use sentryusb::order::{sort_names, text_le};
use sentryusb::serial::{get_machine_serial, get_max_power, is_digestible, serial_of_digest};
use sentryusb::text::{fields_of, lines_of, parse_u64, trimmed};

#[test]
fn serial_is_the_digest_of_the_trimmed_id() {
    // The digest of `abc` is a published test vector.
    let expected =
        "SentryUSB-ba7816bf8f01cfea414140de5dae2223b00361a396177a9cb410ff61f20015ad";
    assert!(is_digestible(Some("abc")) && is_digestible(None));
    assert_eq!(get_machine_serial(Some("abc")), expected);
    assert_eq!(get_machine_serial(Some("  abc\n")), expected);
}

#[test]
fn serial_without_an_id() {
    assert_eq!(get_machine_serial(None), "SentryUSB-unknown");
    assert_eq!(get_machine_serial(Some(" \n")), "SentryUSB-unknown");
}

#[test]
fn serial_spells_the_digest_in_hex() {
    assert_eq!(serial_of_digest(&[0, 15, 160, 255]), "SentryUSB-000fa0ff");
}

#[test]
fn power_ladder_of_the_model_file() {
    assert_eq!(get_max_power(Some("RASPBERRY PI 5\0")), 600);
    assert_eq!(get_max_power(Some("Raspberry Pi 4 Model B")), 500);
    assert_eq!(get_max_power(Some("Raspberry Pi 3")), 300);
    assert_eq!(get_max_power(Some("Raspberry Pi Zero 2 W")), 200);
    assert_eq!(get_max_power(Some("Rock")), 100);
    assert_eq!(get_max_power(Some("Orange Pi 5")), 100);
    assert_eq!(get_max_power(Some("Raspberry P\u{130} 5")), 100);
    for model in ["Raspberry Pi 5", "raspberry pi zero 2 w", "Raspberry Pi \u{fc} pi 3"] {
        assert_eq!(get_max_power(Some(model)), pi_max_power_ma(model));
    }
    assert_eq!(get_max_power(None), 100);
}

#[test]
fn names_sort_by_character() {
    let names: Vec<String> = ["b", "a10", "a2", "", "ä", "a"]
        .iter()
        .map(|s| s.to_string())
        .collect();
    assert_eq!(sort_names(&names), vec!["", "a", "a10", "a2", "b", "ä"]);
    assert!(text_le("a", "a") && text_le("a", "ab") && !text_le("b", "a"));
}

#[test]
fn lines_and_fields_split_as_usual() {
    assert_eq!(lines_of("a\r\nb\n\nc"), "a\r\nb\n\nc".lines().collect::<Vec<_>>());
    assert_eq!(lines_of(""), Vec::<String>::new());
    assert_eq!(
        fields_of("  none /sys/kernel/config\tconfigfs  rw "),
        vec!["none", "/sys/kernel/config", "configfs", "rw"]
    );
    assert_eq!(trimmed("\u{3000}x y\u{a0}\n"), "x y");
    assert_eq!(parse_u64("+12"), Some(12));
    assert_eq!(parse_u64("12 "), None);
}
