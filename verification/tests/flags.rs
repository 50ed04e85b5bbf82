use sentryusb::flags::{experimental_enabled, EXPERIMENTAL_KEY};

#[test]
fn affirmative_values_turn_it_on() {
    for v in ["yes", "YES", " true\n", "True", "1", "\t1 "] {
        assert!(experimental_enabled(Some(v)), "{v:?}");
    }
}

#[test]
fn anything_else_leaves_it_off() {
    for v in ["", "no", "0", "on", "y", "yes please", "11"] {
        assert!(!experimental_enabled(Some(v)), "{v:?}");
    }
    assert!(!experimental_enabled(None));
    assert_eq!(EXPERIMENTAL_KEY, "SENTRYUSB_EXPERIMENTAL");
}
