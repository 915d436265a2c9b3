//! The HID++ 2.0 wire format, as far as one directly paired keyboard speaks it.

use vstd::prelude::*;

verus! {

/// The long report. The keyboard declares no short report at all.
pub const REPORT_LONG: u8 = 0x11;

/// The device index of a directly paired device, as opposed to one that is
/// reached through a receiver.
pub const DEVICE_INDEX: u8 = 0xFF;

/// Marks our requests, and so the replies to them. Notifications carry 0.
pub const SOFTWARE_ID: u8 = 1;

/// The root feature, which looks other features up.
pub const FEATURE_ROOT: u8 = 0x00;

/// The root feature's function that names another feature's index.
pub const ROOT_GET_FEATURE: u8 = 0;

/// The feature that diverts controls.
pub const FEATURE_REPROG_CONTROLS_V4: u16 = 0x1B04;

/// The diverting feature's function that says how a control is reported.
pub const GET_REPORTING: u8 = 2;

/// The diverting feature's function that changes how a control is reported.
pub const SET_REPORTING: u8 = 3;

/// Bytes in a long report, the report id among them.
pub const REPORT_LEN: usize = 20;

/// Bytes in a long report behind its four header bytes.
pub const PAYLOAD_LEN: usize = 16;

/// Bytes that the platform may write for one incoming report.
pub const REPORT_BUFFER_LEN: usize = 64;

/// The `i`-th byte of `s`, or zero where `s` has none.
pub open spec fn byte_at(s: Seq<u8>, i: int) -> u8 {
    if 0 <= i < s.len() {
        s[i]
    } else {
        0
    }
}

/// `s` cut, or filled up with zeroes, to `n` bytes.
pub open spec fn fit(s: Seq<u8>, n: nat) -> Seq<u8> {
    Seq::new(n, |i: int| byte_at(s, i))
}

/// The high byte of a two-byte number.
pub open spec fn high_byte(n: u16) -> u8 {
    (n / 256) as u8
}

/// The low byte of a two-byte number.
pub open spec fn low_byte(n: u16) -> u8 {
    (n % 256) as u8
}

/// The bytes of a request: the report id, the device index, the feature's
/// index, the function in the high half of a byte whose low half is our
/// software id, and sixteen bytes of parameters.
pub open spec fn request_bytes(feature: u8, function: u8, params: Seq<u8>) -> Seq<u8> {
    seq![REPORT_LONG, DEVICE_INDEX, feature, (function % 16 * 16 + SOFTWARE_ID) as u8] + fit(
        params,
        16,
    )
}

/// The report that holds the first twenty bytes of `s`.
pub open spec fn report_of(s: Seq<u8>) -> [u8; REPORT_LEN] {
    [
        s[0], s[1], s[2], s[3], s[4], s[5], s[6], s[7], s[8], s[9],
        s[10], s[11], s[12], s[13], s[14], s[15], s[16], s[17], s[18], s[19],
    ]
}

/// A report is determined by its bytes.
pub proof fn lemma_report_of_view(report: [u8; REPORT_LEN])
    ensures
        report_of(report@) == report,
{
    assert(report_of(report@)@ =~= report@);
    assert(report_of(report@) =~= report);
}

/// Twenty bytes come back out of the report that holds them.
pub broadcast proof fn lemma_view_report_of(s: Seq<u8>)
    requires
        s.len() == REPORT_LEN,
    ensures
        (#[trigger] report_of(s))@ == s,
{
}

/// Builds the report that asks function `function` of feature `feature`.
/// Parameters past the sixteenth byte are not sent.
pub fn request(feature: u8, function: u8, params: &[u8]) -> (report: [u8; REPORT_LEN])
    ensures
        report@ == request_bytes(feature, function, params@),
{
    let mut report: [u8; REPORT_LEN] = [0u8; REPORT_LEN];
    assert((function << 4u8) | 1u8 == function % 16 * 16 + 1) by (bit_vector);
    report[0] = REPORT_LONG;
    report[1] = DEVICE_INDEX;
    report[2] = feature;
    report[3] = (function << 4u8) | SOFTWARE_ID;
    let n: usize = if params.len() < PAYLOAD_LEN { params.len() } else { PAYLOAD_LEN };
    let mut i: usize = 0;
    while i < n
        invariant
            i <= n,
            n <= PAYLOAD_LEN,
            n <= params.len(),
            report@[0] == REPORT_LONG,
            report@[1] == DEVICE_INDEX,
            report@[2] == feature,
            report@[3] == function % 16 * 16 + 1,
            forall|j: int| 4 <= j < 4 + i ==> report@[j] == params@[j - 4],
            forall|j: int| 4 + i <= j < 20 ==> report@[j] == 0,
        decreases n - i,
    {
        report[4 + i] = params[i];
        i = i + 1;
    }
    assert(report@ =~= request_bytes(feature, function, params@));
    report
}

/// An incoming report with its report id in front, whether or not the
/// platform had already put it there.
pub open spec fn message_bytes(report_id: u32, report: Seq<u8>) -> Seq<u8> {
    if report.len() > 0 && report[0] == REPORT_LONG {
        report
    } else {
        seq![(report_id % 256) as u8] + report
    }
}

/// Whether a message is a long HID++ message of the keyboard itself.
pub open spec fn is_hidpp(m: Seq<u8>) -> bool {
    &&& m.len() >= 7
    &&& m[0] == REPORT_LONG
    &&& m[1] == DEVICE_INDEX
}

/// The index of the feature that a message speaks for.
pub open spec fn feature_of(m: Seq<u8>) -> u8 {
    m[2]
}

/// The software id that a message carries.
pub open spec fn software_id_of(m: Seq<u8>) -> u8 {
    (m[3] % 16) as u8
}

/// The function that a message answers, or the event that it announces.
pub open spec fn function_of(m: Seq<u8>) -> u8 {
    (m[3] / 16) as u8
}

/// The first control that a diverted-buttons notification lists.
pub open spec fn control_of(m: Seq<u8>) -> int {
    m[4] * 256 + m[5]
}

/// A long HID++ message, taken apart.
#[derive(Clone, Copy, PartialEq, Eq, Debug)]
pub struct Incoming {
    /// The index of the feature that the message speaks for.
    pub feature: u8,
    /// The function that it answers, or the event that it announces.
    pub function: u8,
    /// The software id of the request that it answers, or 0.
    pub software_id: u8,
    /// The first two bytes of its payload, as one number.
    pub control: u16,
    /// Its first twenty bytes, zeroes where it is shorter.
    pub report: [u8; REPORT_LEN],
}

/// Takes an incoming report apart, or finds that it is no long HID++ message
/// of the keyboard itself.
pub fn read_report(report_id: u32, report: &[u8]) -> (incoming: Option<Incoming>)
    ensures
        incoming is Some <==> is_hidpp(message_bytes(report_id, report@)),
        incoming matches Some(read) ==> {
            let m = message_bytes(report_id, report@);
            &&& read.feature == feature_of(m)
            &&& read.function == function_of(m)
            &&& read.software_id == software_id_of(m)
            &&& read.control == control_of(m)
            &&& read.report@ == fit(m, 20)
        },
{
    let ghost m = message_bytes(report_id, report@);
    let mut bytes: [u8; REPORT_LEN] = [0u8; REPORT_LEN];
    let mut offset: usize = 0;
    if report.len() == 0 || report[0] != REPORT_LONG {
        assert(report_id as u8 == report_id % 256) by (bit_vector);
        bytes[0] = #[verifier::truncate] (report_id as u8);
        offset = 1;
    }
    let room: usize = REPORT_LEN - offset;
    let n: usize = if report.len() < room { report.len() } else { room };
    let mut i: usize = 0;
    while i < n
        invariant
            i <= n,
            n <= report.len(),
            offset + n <= REPORT_LEN,
            offset <= 1,
            m.len() == offset + report.len(),
            forall|j: int| offset <= j < m.len() ==> m[j] == report@[j - offset],
            forall|j: int| 0 <= j < offset + i ==> bytes@[j] == m[j],
            forall|j: int| offset + i <= j < 20 ==> bytes@[j] == 0,
        decreases n - i,
    {
        assert(m[offset + i] == report@[i as int]);
        bytes[offset + i] = report[i];
        i = i + 1;
    }
    assert(bytes@ =~= fit(m, 20));
    if offset + n < 7 || bytes[0] != REPORT_LONG || bytes[1] != DEVICE_INDEX {
        return None;
    }
    let head: u8 = bytes[3];
    assert(head & 0x0F == head % 16) by (bit_vector);
    assert(head >> 4u8 == head / 16) by (bit_vector);
    let (high, low): (u8, u8) = (bytes[4], bytes[5]);
    assert(((high as u16) << 8u16) | low as u16 == high * 256 + low) by (bit_vector);
    Some(
        Incoming {
            feature: bytes[2],
            function: head >> 4u8,
            software_id: head & 0x0F,
            control: ((high as u16) << 8u16) | low as u16,
            report: bytes,
        },
    )
}

/// A two-byte number, high byte first.
pub fn split_u16(n: u16) -> (bytes: (u8, u8))
    ensures
        bytes.0 == high_byte(n),
        bytes.1 == low_byte(n),
{
    assert((n >> 8u16) as u8 == n / 256) by (bit_vector);
    assert((n & 0xFF) as u8 == n % 256) by (bit_vector);
    ((n >> 8u16) as u8, (n & 0xFF) as u8)
}

/// The buffer that incoming reports are written into, before the first one.
pub fn report_buffer() -> (buffer: [u8; REPORT_BUFFER_LEN])
    ensures
        buffer@ == Seq::new(64, |i: int| 0u8),
{
    let buffer: [u8; REPORT_BUFFER_LEN] = [0u8; REPORT_BUFFER_LEN];
    assert(buffer@ =~= Seq::new(64, |i: int| 0u8));
    buffer
}

/// A request lies on the wire as its header, its parameters up to the sixteenth
/// byte, and zeroes.
pub proof fn law_request_layout(feature: u8, function: u8, params: Seq<u8>, i: int)
    ensures
        request_bytes(feature, function, params).len() == 20,
        request_bytes(feature, function, params).take(3) == seq![0x11u8, 0xFF, feature],
        request_bytes(feature, function, params)[3] == 16 * (function % 16) + 1,
        0 <= i < 16 && i < params.len() ==> request_bytes(feature, function, params)[4 + i]
            == params[i],
        params.len() <= i < 16 ==> request_bytes(feature, function, params)[4 + i] == 0,
{
    assert(request_bytes(feature, function, params).take(3) =~= seq![0x11u8, 0xFF, feature]);
}

/// A report means the same whether or not the platform has put the report id
/// in front, and one that starts with the long report's id is never given
/// another.
pub proof fn law_report_id_stands_in_front_once(report_id: u32, other_id: u32, report: Seq<u8>)
    ensures
        message_bytes(other_id, seq![0x11u8] + report) == seq![0x11u8] + report,
        report.len() == 0 || report[0] != 0x11 ==> {
            &&& message_bytes(report_id, report).skip(1) == report
            &&& message_bytes(report_id, report).len() == report.len() + 1
            &&& message_bytes(report_id, report)[0] as int == report_id as int % 256
        },
{
    if report.len() == 0 || report[0] != 0x11 {
        assert(message_bytes(report_id, report).skip(1) =~= report);
    }
}

/// A message of the keyboard is seven bytes or more that start with the long
/// report's id and the device index. Its feature, function, software id and
/// first control are where a request has them, and they say all there is.
pub proof fn law_message_fields(m: Seq<u8>, i: int)
    ensures
        is_hidpp(m) <==> m.len() >= 7 && m[0] == 0x11 && m[1] == 0xFF,
        feature_of(m) == m[2],
        16 * function_of(m) + software_id_of(m) == m[3],
        software_id_of(m) < 16,
        control_of(m) == 256 * m[4] + m[5],
        fit(m, 20).len() == 20,
        0 <= i < 20 ==> fit(m, 20)[i] == (if i < m.len() {
            m[i]
        } else {
            0
        }),
{
}

/// The two bytes of a number make the number again.
pub proof fn law_split_numbers_are_whole(n: u16)
    ensures
        256 * high_byte(n) + low_byte(n) == n,
{
}

} // verus!
