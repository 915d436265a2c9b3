use mxkeys_f4d::message::{Failure, Message};

#[test]
fn messages_read_as_documented() {
    assert_eq!(Message::Starting.text(), "starting");
    assert_eq!(Message::Attached.text(), "keyboard attached");
    assert_eq!(Message::Detached.text(), "keyboard detached");
    assert_eq!(Message::KeyPosted.text(), "control pressed -> key posted");
    assert_eq!(
        Message::NotPermitted.text(),
        "cannot open device: grant this binary Input Monitoring"
    );
    assert_eq!(Message::NoFeature.text(), "device does not expose HID++ feature 0x1B04");
    assert_eq!(Message::DivertCleared.text(), "divert cleared, exiting");
}

#[test]
fn failures_say_that_another_attempt_follows() {
    assert_eq!(
        Message::Retrying(Failure::NoAnswer).text(),
        "keyboard did not answer the feature probe; retrying"
    );
    assert_eq!(
        Message::Retrying(Failure::NotConfirmed).text(),
        "divert was not confirmed by the device; retrying"
    );
}

#[test]
fn open_failures_show_their_code() {
    for code in [-536_870_203, 1, 0x7FFF_FFFF, -1, i32::MIN] {
        assert_eq!(
            Failure::CannotOpen(code).text(),
            format!("cannot open device: IOReturn {code:#010x}")
        );
    }
    assert_eq!(
        Failure::CannotOpen(-536_870_203).text(),
        "cannot open device: IOReturn 0xe00002c5"
    );
}

#[test]
fn success_counts_the_attempts_before_it() {
    assert_eq!(
        Message::Diverted(0).text(),
        "control diverted — the key is live, and F12 is untouched"
    );
    assert_eq!(
        Message::Diverted(1).text(),
        "control diverted after 1 more attempt — the key is live, and F12 is untouched"
    );
    assert_eq!(
        Message::Diverted(12).text(),
        "control diverted after 12 more attempts — the key is live, and F12 is untouched"
    );
}
