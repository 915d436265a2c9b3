use mxkeys_f4d::hidpp::{read_report, report_buffer, request, split_u16, Incoming};

#[test]
fn feature_probe_has_known_bytes() {
    let report = request(0x00, 0x00, &[0x1B, 0x04, 0x00]);
    assert_eq!(
        report,
        [0x11, 0xFF, 0x00, 0x01, 0x1B, 0x04, 0, 0, 0, 0, 0, 0, 0, 0, 0, 0, 0, 0, 0, 0]
    );
}

#[test]
fn divert_request_has_known_bytes() {
    let report = request(0x09, 3, &[0x00, 0xE1, 0x03]);
    assert_eq!(
        report,
        [0x11, 0xFF, 0x09, 0x31, 0x00, 0xE1, 0x03, 0, 0, 0, 0, 0, 0, 0, 0, 0, 0, 0, 0, 0]
    );
}

#[test]
fn function_keeps_its_low_half() {
    assert_eq!(request(1, 0x1F, &[])[3], 0xF1);
    assert_eq!(request(1, 0x20, &[])[3], 0x01);
    assert_eq!(request(1, 0xFF, &[])[3], 0xF1);
}

#[test]
fn parameters_past_the_sixteenth_are_cut() {
    let params: Vec<u8> = (1..=30).collect();
    let report = request(2, 1, &params);
    assert_eq!(report[4..], params[..16]);
    assert_eq!(request(2, 1, &params[..16])[4..], params[..16]);
    assert_eq!(request(2, 1, &[])[4..], [0u8; 16]);
}

#[test]
fn report_with_its_id_is_taken_as_it_is() {
    let read = read_report(0x11, &[0x11, 0xFF, 0x09, 0x21, 0x00, 0xE1, 0x03, 0x55]);
    assert_eq!(
        read,
        Some(Incoming {
            feature: 9,
            function: 2,
            software_id: 1,
            control: 0x00E1,
            report: [0x11, 0xFF, 0x09, 0x21, 0x00, 0xE1, 0x03, 0x55, 0, 0, 0, 0, 0, 0, 0, 0, 0, 0, 0, 0],
        })
    );
}

#[test]
fn report_without_its_id_gets_it() {
    let bare = [0xFF, 0x09, 0x21, 0x12, 0x34, 0x03];
    let whole = [0x11, 0xFF, 0x09, 0x21, 0x12, 0x34, 0x03];
    assert_eq!(read_report(0x11, &bare), read_report(0x77, &whole));
    assert_eq!(read_report(0x11, &bare).unwrap().control, 0x1234);
    assert_eq!(read_report(0x111, &bare), read_report(0x11, &bare));
    assert_eq!(read_report(0x10, &bare), None);
}

#[test]
fn short_reports_are_no_messages() {
    assert_eq!(read_report(0x11, &[]), None);
    assert_eq!(read_report(0x11, &[0x11]), None);
    assert_eq!(read_report(0x11, &[0x11, 0xFF, 9, 0, 0, 0xE1]), None);
    assert!(read_report(0x11, &[0x11, 0xFF, 9, 0, 0, 0xE1, 0]).is_some());
    assert_eq!(read_report(0x11, &[0xFF, 9, 0, 0, 0xE1]), None);
}

#[test]
fn messages_of_other_devices_are_none_of_ours() {
    assert_eq!(read_report(0x11, &[0x11, 0x01, 9, 0, 0, 0xE1, 0, 0]), None);
    assert_eq!(read_report(0x01, &[0x01, 0x00, 0x45, 0, 0, 0, 0, 0]), None);
}

#[test]
fn long_reports_are_cut_to_twenty_bytes() {
    let mut long = [0x11u8; 64];
    long[1] = 0xFF;
    for i in 2..64 {
        long[i] = i as u8;
    }
    assert_eq!(read_report(0x11, &long).unwrap().report[..], long[..20]);
    let shifted = read_report(0x11, &long[1..]).unwrap();
    assert_eq!(shifted.report[0], 0x11);
    assert_eq!(shifted.report[1..], long[1..20]);
}

#[test]
fn numbers_split_high_byte_first() {
    assert_eq!(split_u16(0x1B04), (0x1B, 0x04));
    assert_eq!(split_u16(0x00E1), (0x00, 0xE1));
    assert_eq!(split_u16(0xFFFF), (0xFF, 0xFF));
}

#[test]
fn report_buffer_is_empty() {
    assert_eq!(report_buffer(), [0u8; 64]);
}
