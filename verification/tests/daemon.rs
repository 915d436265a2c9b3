use mxkeys_f4d::config::Config;
use mxkeys_f4d::message::{Failure, Message};
use mxkeys_f4d::state::{failure_to_open, Action, Next, Probe, State, Turn, Wait};

const DEVICE: usize = 0x7000;
const INDEX: u8 = 9;
const NOT_PERMITTED: i32 = -536_870_174;
const BUSY: i32 = -536_870_203;

fn started() -> State {
    State::new(Config::default())
}

/// The report that answers `function` of `feature` with `payload`.
fn reply(feature: u8, function: u8, payload: &[u8]) -> Vec<u8> {
    let mut report = vec![0x11, 0xFF, feature, (function << 4) | 1];
    report.extend_from_slice(payload);
    report.resize(20, 0);
    report
}

/// The report that says which control is held down.
fn notification(cid: u16) -> Vec<u8> {
    let mut report = vec![0x11, 0xFF, INDEX, 0x00, (cid >> 8) as u8, cid as u8];
    report.resize(20, 0);
    report
}

/// A keyboard, as far as the daemon sees it.
struct Keyboard {
    /// What the root feature answers, if it does.
    index: Option<u8>,
    /// Whether queries about the divert are answered.
    answers: bool,
    /// Whether divert requests are obeyed.
    obeys: bool,
    diverted: bool,
    waiting: Vec<Vec<u8>>,
}

impl Keyboard {
    fn new() -> Keyboard {
        Keyboard { index: Some(INDEX), answers: true, obeys: true, diverted: false, waiting: Vec::new() }
    }

    fn receive(&mut self, report: &[u8; 20]) {
        assert_eq!(report[..2], [0x11, 0xFF]);
        assert_eq!(report[3] & 0x0F, 1);
        match (report[2], report[3] >> 4) {
            (0, 0) => {
                assert_eq!(report[4..7], [0x1B, 0x04, 0]);
                if let Some(index) = self.index {
                    self.waiting.push(reply(0, 0, &[index]));
                }
            }
            (INDEX, 2) => {
                if self.answers {
                    let flags = if self.diverted { 0x01 } else { 0x00 };
                    self.waiting.push(reply(INDEX, 2, &[report[4], report[5], flags]));
                }
            }
            (INDEX, 3) => {
                assert_eq!(report[4..6], [0x00, 0xE1]);
                assert!(report[6] == 0x02 || report[6] == 0x03);
                assert_eq!(report[7..], [0u8; 13]);
                if self.obeys {
                    self.diverted = report[6] == 0x03;
                }
                self.waiting.push(reply(INDEX, 3, &report[4..7]));
            }
            other => panic!("unexpected request {other:?}"),
        }
    }
}

/// What happened while a turn was carried out to its end.
struct Record {
    log: Vec<Message>,
    timer: Vec<Option<u32>>,
    pumps: u32,
    opens: u32,
    closed: Vec<Option<usize>>,
}

/// Carries out `turn`, with `code` as the answer to every open.
fn carry_out(state: &mut State, turn: Turn, keyboard: &mut Keyboard, code: i32) -> Record {
    let mut record = Record { log: Vec::new(), timer: Vec::new(), pumps: 0, opens: 0, closed: Vec::new() };
    let mut turn = turn;
    loop {
        for action in &turn.actions {
            match action {
                Action::Log(message) => record.log.push(*message),
                Action::Listen(device) => assert_eq!(*device, DEVICE),
                Action::Send { device, report } => {
                    assert_eq!(*device, Some(DEVICE));
                    keyboard.receive(report);
                }
                Action::PostKey { .. } => panic!("no key was pressed"),
                Action::ArmRetry(delay) => record.timer.push(Some(*delay)),
                Action::ParkRetry => record.timer.push(None),
                Action::Close(device) => record.closed.push(*device),
            }
        }
        turn = match turn.next {
            Next::Open(device) => {
                record.opens += 1;
                state.on_opened(device, code)
            }
            Next::Pump(wait) => {
                record.pumps += 1;
                if !keyboard.waiting.is_empty() {
                    let report = keyboard.waiting.remove(0);
                    assert!(state.on_report(0x11, &report).is_empty());
                }
                state.on_pumped(wait)
            }
            Next::Done => return record,
        };
    }
}

fn live() -> (State, Keyboard) {
    let (mut state, mut keyboard) = (started(), Keyboard::new());
    let turn = state.on_attach(Some(DEVICE));
    carry_out(&mut state, turn, &mut keyboard, 0);
    (state, keyboard)
}

#[test]
fn answering_keyboard_is_brought_up() {
    let (mut state, mut keyboard) = (started(), Keyboard::new());
    let turn = state.on_attach(Some(DEVICE));
    assert_eq!(turn, Turn { actions: vec![Action::Log(Message::Attached)], next: Next::Open(DEVICE) });
    let record = carry_out(&mut state, turn, &mut keyboard, 0);
    assert_eq!(record.log, [Message::Attached, Message::Diverted(0)]);
    assert_eq!(record.timer, [None]);
    assert_eq!(record.opens, 1);
    assert!(keyboard.diverted);
    assert_eq!(state.feature, INDEX);
    assert_eq!(state.device, Some(DEVICE));
    assert!(state.opened);
    assert_eq!(state.attempt, 0);
}

#[test]
fn opening_asks_for_the_feature() {
    let mut state = started();
    state.on_attach(Some(DEVICE));
    let turn = state.on_opened(DEVICE, 0);
    let mut report = [0u8; 20];
    report[..6].copy_from_slice(&[0x11, 0xFF, 0x00, 0x01, 0x1B, 0x04]);
    assert_eq!(
        turn,
        Turn {
            actions: vec![
                Action::Listen(DEVICE),
                Action::Send { device: Some(DEVICE), report },
            ],
            next: Next::Pump(Wait::Probe { begun: 0, left: 99 }),
        }
    );
    assert!(state.opened);
    assert!(!state.have_reply);
}

#[test]
fn attach_of_no_device_is_only_logged() {
    let mut state = started();
    let turn = state.on_attach(None);
    assert_eq!(turn, Turn { actions: vec![Action::Log(Message::Attached)], next: Next::Done });
    assert_eq!(state, started());
}

#[test]
fn second_keyboard_is_ignored() {
    let (mut state, _) = live();
    let before = state;
    assert_eq!(state.on_attach(Some(1)), Turn { actions: vec![], next: Next::Done });
    assert_eq!(state, before);
}

#[test]
fn press_posts_the_key_once() {
    let (mut state, _) = live();
    let down = Action::PostKey { key_code: 79, down: true, flags: 0x0080_0000 };
    let up = Action::PostKey { key_code: 79, down: false, flags: 0x0080_0000 };
    assert_eq!(state.on_report(0x11, &notification(0xE1)), [down, up]);
    assert!(state.pressed);
    assert!(state.on_report(0x11, &notification(0xE1)).is_empty());
    assert!(state.on_report(0x11, &notification(0xE0)).is_empty());
    assert!(state.pressed);
    assert!(state.on_report(0x11, &notification(0)).is_empty());
    assert!(!state.pressed);
    assert!(state.on_report(0x11, &notification(0)).is_empty());
    assert_eq!(state.on_report(0x11, &notification(0xE1)), [down, up]);
}

#[test]
fn verbose_daemon_logs_keypresses() {
    let mut state = State::new(Config { verbose: true, key_code: 5, ..Config::default() });
    assert_eq!(
        state.fire(),
        [
            Action::PostKey { key_code: 5, down: true, flags: 0x0080_0000 },
            Action::PostKey { key_code: 5, down: false, flags: 0x0080_0000 },
            Action::Log(Message::KeyPosted),
        ]
    );
    state.feature = INDEX;
    assert_eq!(state.on_report(0x11, &notification(0xE1)), state.fire());
}

#[test]
fn control_zero_can_be_pressed_and_released() {
    let mut state = State::new(Config { cid: 0, ..Config::default() });
    state.feature = INDEX;
    assert_eq!(state.on_report(0x11, &notification(0)).len(), 2);
    assert!(state.pressed);
    assert!(state.on_report(0x11, &notification(0)).is_empty());
    assert!(!state.pressed);
}

#[test]
fn ordinary_keyboard_reports_do_nothing() {
    let (mut state, _) = live();
    let before = state;
    let f12 = [0x01, 0x00, 0x45, 0x00, 0x00, 0x00, 0x00, 0x00];
    for report_id in [0x00, 0x01, 0x11, 0xFF] {
        assert!(state.on_report(report_id, &f12).is_empty());
        assert_eq!(state, before);
    }
}

#[test]
fn other_features_and_events_do_nothing() {
    let (mut state, _) = live();
    let before = state;
    let mut report = notification(0xE1);
    report[2] = INDEX + 1;
    assert!(state.on_report(0x11, &report).is_empty());
    report[2] = INDEX;
    report[3] = 0x10;
    assert!(state.on_report(0x11, &report).is_empty());
    report[3] = 0x02;
    assert!(state.on_report(0x11, &report).is_empty());
    assert_eq!(state, before);
}

#[test]
fn awaited_reply_is_seen_and_stays() {
    let mut state = started();
    state.call(INDEX, 2, &[0x00, 0xE1]);
    assert!(state.keep_waiting(INDEX, 2, 1));
    assert!(!state.keep_waiting(INDEX, 2, 0));
    assert_eq!(state.reply_payload(INDEX, 2), None);
    state.on_report(0x11, &reply(INDEX + 1, 2, &[1]));
    assert!(!state.have_reply);
    let payload: Vec<u8> = (1..=16).collect();
    state.on_report(0x11, &reply(INDEX, 2, &payload));
    assert!(!state.keep_waiting(INDEX, 2, 99));
    assert!(state.keep_waiting(INDEX, 3, 99));
    assert_eq!(state.reply_payload(INDEX, 2).unwrap()[..], payload[..]);
    assert_eq!(state.reply_payload(INDEX, 3), None);
    assert_eq!(state.reply_payload(INDEX + 1, 2), None);
    state.on_report(0x11, &reply(INDEX, 2, &[7; 16]));
    assert_eq!(state.reply_payload(INDEX, 2).unwrap()[..], payload[..]);
    state.call(INDEX, 2, &[]);
    assert_eq!(state.reply_payload(INDEX, 2), None);
}

#[test]
fn reply_may_lack_its_tail() {
    let mut state = started();
    state.feature = INDEX;
    state.call(INDEX, 2, &[]);
    state.on_report(0x11, &[0x11, 0xFF, INDEX, 0x21, 0x00, 0xE1, 0x01]);
    assert!(state.divert_is_set(INDEX));
    let mut expected = [0u8; 16];
    expected[1] = 0xE1;
    expected[2] = 0x01;
    assert_eq!(state.reply_payload(INDEX, 2), Some(expected));
}

#[test]
fn divert_flag_is_bit_zero() {
    for (flags, set) in [(0x00, false), (0x01, true), (0x02, false), (0x03, true), (0xFE, false)] {
        let mut state = started();
        state.ask_divert();
        state.on_report(0x11, &reply(0, 2, &[0x00, 0xE1, flags]));
        assert_eq!(state.divert_is_set(0), set);
    }
    let mut silent = started();
    silent.ask_divert();
    assert!(!silent.divert_is_set(0));
}

#[test]
fn probe_tells_absence_from_silence() {
    let mut state = started();
    state.ask_feature_index(0x1B04);
    assert_eq!(state.feature_index(), Probe::Silent);
    let silent = state;
    state.on_report(0x11, &reply(0, 0, &[0]));
    assert_eq!(state.feature_index(), Probe::Absent);
    let mut state = silent;
    state.on_report(0x11, &reply(0, 0, &[12]));
    assert_eq!(state.feature_index(), Probe::Ready(12));
}

#[test]
fn divert_is_never_persistent() {
    let (state, _) = live();
    for (on, flags) in [(true, 0x03), (false, 0x02)] {
        let mut report = [0u8; 20];
        report[..7].copy_from_slice(&[0x11, 0xFF, INDEX, 0x31, 0x00, 0xE1, flags]);
        assert_eq!(state.set_divert(on), Action::Send { device: Some(DEVICE), report });
    }
}

#[test]
fn missing_feature_is_not_tried_again() {
    let (mut state, mut keyboard) = (started(), Keyboard::new());
    keyboard.index = Some(0);
    let turn = state.on_attach(Some(DEVICE));
    let record = carry_out(&mut state, turn, &mut keyboard, 0);
    assert_eq!(record.log, [Message::Attached, Message::NoFeature]);
    assert!(record.timer.is_empty());
    assert_eq!(state.device, Some(DEVICE));
}

#[test]
fn silent_keyboard_is_tried_again_later_and_later() {
    let (mut state, mut keyboard) = (started(), Keyboard::new());
    keyboard.index = None;
    let turn = state.on_attach(Some(DEVICE));
    let record = carry_out(&mut state, turn, &mut keyboard, 0);
    assert_eq!(record.log, [Message::Attached, Message::Retrying(Failure::NoAnswer)]);
    assert_eq!(record.timer, [Some(1)]);
    assert_eq!(record.pumps, 100);
    for delay in [2, 4, 8, 16, 30, 30, 30] {
        let turn = state.on_retry_due();
        let record = carry_out(&mut state, turn, &mut keyboard, 0);
        assert!(record.log.is_empty());
        assert_eq!(record.timer, [None, Some(delay)]);
        assert_eq!(record.opens, 0);
    }
    keyboard.index = Some(INDEX);
    let turn = state.on_retry_due();
    let record = carry_out(&mut state, turn, &mut keyboard, 0);
    assert_eq!(record.log, [Message::Diverted(8)]);
    assert_eq!(record.timer, [None, None]);
    assert_eq!(state.attempt, 0);
}

#[test]
fn reply_at_the_last_pump_counts() {
    let mut state = started();
    state.on_attach(Some(DEVICE));
    state.on_opened(DEVICE, 0);
    assert_eq!(
        state.on_pumped(Wait::Probe { begun: 0, left: 1 }),
        Turn { actions: vec![], next: Next::Pump(Wait::Probe { begun: 0, left: 0 }) }
    );
    state.on_report(0x11, &reply(0, 0, &[INDEX]));
    let turn = state.on_pumped(Wait::Probe { begun: 0, left: 0 });
    assert_eq!(turn.next, Next::Pump(Wait::Settle { begun: 0, rounds: 39 }));
    assert_eq!(state.feature, INDEX);
}

#[test]
fn disobedient_keyboard_is_asked_in_forty_rounds() {
    let (mut state, mut keyboard) = (started(), Keyboard::new());
    keyboard.obeys = false;
    let turn = state.on_attach(Some(DEVICE));
    let record = carry_out(&mut state, turn, &mut keyboard, 0);
    assert_eq!(record.log, [Message::Attached, Message::Retrying(Failure::NotConfirmed)]);
    assert_eq!(record.timer, [Some(1)]);
    assert_eq!(state.attempt, 1);
}

#[test]
fn mute_divert_query_uses_up_every_pump() {
    let (mut state, mut keyboard) = (started(), Keyboard::new());
    keyboard.answers = false;
    let turn = state.on_attach(Some(DEVICE));
    let record = carry_out(&mut state, turn, &mut keyboard, 0);
    assert_eq!(record.log, [Message::Attached, Message::Retrying(Failure::NotConfirmed)]);
    assert_eq!(record.pumps, 1 + 40 * 101);
}

#[test]
fn refused_keyboard_is_let_go() {
    let (mut state, mut keyboard) = (started(), Keyboard::new());
    let turn = state.on_attach(Some(DEVICE));
    let record = carry_out(&mut state, turn, &mut keyboard, NOT_PERMITTED);
    assert_eq!(record.log, [Message::Attached, Message::NotPermitted]);
    assert!(record.timer.is_empty());
    assert_eq!(state.device, None);
    let turn = state.on_attach(Some(DEVICE));
    assert_eq!(turn.next, Next::Open(DEVICE));
}

#[test]
fn busy_keyboard_is_opened_again_later() {
    let (mut state, mut keyboard) = (started(), Keyboard::new());
    let turn = state.on_attach(Some(DEVICE));
    let record = carry_out(&mut state, turn, &mut keyboard, BUSY);
    assert_eq!(record.log, [Message::Attached, Message::Retrying(Failure::CannotOpen(BUSY))]);
    assert_eq!(record.timer, [Some(1)]);
    assert!(!state.opened);
    let turn = state.on_retry_due();
    assert_eq!(turn, Turn { actions: vec![Action::ParkRetry], next: Next::Open(DEVICE) });
    let record = carry_out(&mut state, turn, &mut keyboard, 0);
    assert_eq!(record.log, [Message::Diverted(1)]);
}

#[test]
fn retry_without_a_keyboard_does_nothing() {
    let mut state = started();
    assert_eq!(state.on_retry_due(), Turn { actions: vec![Action::ParkRetry], next: Next::Done });
    assert_eq!(state.try_bring_up(), Turn { actions: vec![], next: Next::Done });
    assert_eq!(state, started());
}

#[test]
fn detach_forgets_the_keyboard() {
    let (mut state, _) = live();
    state.on_report(0x11, &notification(0xE1));
    let turn = state.on_detach();
    assert_eq!(
        turn,
        Turn { actions: vec![Action::Log(Message::Detached), Action::ParkRetry], next: Next::Done }
    );
    assert_eq!((state.device, state.feature, state.pressed), (None, 0, false));
    assert_eq!((state.opened, state.attempt, state.detaches), (false, 0, 1));
    assert_eq!(state.on_attach(Some(1)).next, Next::Open(1));
}

#[test]
fn detach_between_rounds_ends_the_attempt() {
    let (mut state, _) = live();
    state.on_detach();
    let before = state;
    assert_eq!(
        state.on_pumped(Wait::Settle { begun: 0, rounds: 3 }),
        Turn { actions: vec![], next: Next::Done }
    );
    assert_eq!(state, before);
}

#[test]
fn detach_during_the_probe_owes_nothing() {
    let mut state = started();
    state.on_attach(Some(DEVICE));
    state.on_opened(DEVICE, 0);
    state.on_detach();
    for left in [0, 50] {
        assert_eq!(state.failure_of(Wait::Probe { begun: 0, left }), None);
        assert_eq!(
            state.on_pumped(Wait::Probe { begun: 0, left }),
            Turn { actions: vec![], next: Next::Done }
        );
    }
    assert_eq!((state.device, state.attempt), (None, 0));
}

#[test]
fn detach_in_the_last_round_owes_nothing() {
    let (mut state, _) = live();
    state.on_pumped(Wait::Settle { begun: 0, rounds: 0 });
    state.on_detach();
    assert_eq!(
        state.on_pumped(Wait::Confirm { begun: 0, rounds: 0, left: 0 }),
        Turn { actions: vec![], next: Next::Done }
    );
    assert_eq!(state.attempt, 0);
}

#[test]
fn echo_of_the_divert_is_no_answer() {
    let mut state = started();
    state.call(INDEX, 2, &[0x00, 0xE1]);
    let before = state;
    let echo = [0x11, 0xFF, 0x09, 0x31, 0x00, 0xE1, 0x03];
    assert!(state.on_report(0x11, &echo).is_empty());
    assert_eq!(state, before);
    assert_eq!(state.reply_payload(INDEX, 2), None);
}

#[test]
fn echo_of_the_divert_is_no_confirmation() {
    let (mut state, _) = live();
    state.on_pumped(Wait::Settle { begun: 0, rounds: 0 });
    state.on_report(0x11, &reply(INDEX, 3, &[0x00, 0xE1, 0x03]));
    assert_eq!(
        state.on_pumped(Wait::Confirm { begun: 0, rounds: 0, left: 5 }).next,
        Next::Pump(Wait::Confirm { begun: 0, rounds: 0, left: 4 })
    );
    let mut unanswered = state;
    assert_eq!(
        unanswered.on_pumped(Wait::Confirm { begun: 0, rounds: 0, left: 0 }).actions,
        [Action::Log(Message::Retrying(Failure::NotConfirmed)), Action::ArmRetry(1)]
    );
    state.on_report(0x11, &reply(INDEX, 2, &[0x00, 0xE1, 0x00]));
    assert_eq!(state.failure_of(Wait::Confirm { begun: 0, rounds: 0, left: 4 }), Some(Failure::NotConfirmed));
    assert_eq!(
        state.on_pumped(Wait::Confirm { begun: 0, rounds: 0, left: 4 }).actions,
        [Action::Log(Message::Retrying(Failure::NotConfirmed)), Action::ArmRetry(1)]
    );
}

#[test]
fn denied_divert_is_asked_about_again() {
    let (mut state, _) = live();
    state.on_pumped(Wait::Settle { begun: 0, rounds: 7 });
    state.on_report(0x11, &reply(INDEX, 2, &[0x00, 0xE1, 0x02]));
    assert_eq!(
        state.on_pumped(Wait::Confirm { begun: 0, rounds: 7, left: 99 }),
        Turn { actions: vec![], next: Next::Pump(Wait::Settle { begun: 0, rounds: 6 }) }
    );
}

#[test]
fn echo_on_the_way_out_does_not_end_the_asking() {
    let (mut state, _) = live();
    state.shutdown();
    state.on_pumped(Wait::Clear { rounds: 19 });
    state.on_report(0x11, &reply(INDEX, 3, &[0x00, 0xE1, 0x02]));
    assert_eq!(
        state.on_pumped(Wait::Check { rounds: 19, left: 99 }).next,
        Next::Pump(Wait::Check { rounds: 19, left: 98 })
    );
    state.on_report(0x11, &reply(INDEX, 2, &[0x00, 0xE1, 0x01]));
    assert_eq!(
        state.on_pumped(Wait::Check { rounds: 19, left: 98 }),
        Turn { actions: vec![], next: Next::Pump(Wait::Clear { rounds: 18 }) }
    );
}

#[test]
fn only_some_codes_call_for_another_attempt() {
    assert_eq!(failure_to_open(0), None);
    assert_eq!(failure_to_open(NOT_PERMITTED), None);
    assert_eq!(failure_to_open(BUSY), Some(Failure::CannotOpen(BUSY)));
}

#[test]
fn answer_to_a_later_request_is_not_the_index() {
    let (mut state, _) = live();
    assert!(state.divert_is_set(INDEX));
    assert_eq!(state.feature_index(), Probe::Silent);
    assert_eq!(
        state.on_pumped(Wait::Probe { begun: 0, left: 3 }).next,
        Next::Pump(Wait::Probe { begun: 0, left: 2 })
    );
}

#[test]
fn index_named_before_a_detach_is_acted_on() {
    let mut state = started();
    state.on_attach(Some(DEVICE));
    state.on_opened(DEVICE, 0);
    state.on_report(0x11, &reply(0, 0, &[INDEX]));
    state.on_detach();
    let mut report = [0u8; 20];
    report[..7].copy_from_slice(&[0x11, 0xFF, INDEX, 0x31, 0x00, 0xE1, 0x03]);
    assert_eq!(
        state.on_pumped(Wait::Probe { begun: 0, left: 98 }),
        Turn {
            actions: vec![Action::Send { device: None, report }],
            next: Next::Pump(Wait::Settle { begun: 0, rounds: 39 }),
        }
    );
    assert_eq!(state.feature, INDEX);
    assert_eq!(
        state.on_pumped(Wait::Settle { begun: 0, rounds: 39 }),
        Turn { actions: vec![], next: Next::Done }
    );
}

#[test]
fn absence_named_before_a_detach_is_logged() {
    let mut state = started();
    state.on_attach(Some(DEVICE));
    state.on_opened(DEVICE, 0);
    state.on_report(0x11, &reply(0, 0, &[0]));
    state.on_detach();
    assert_eq!(
        state.on_pumped(Wait::Probe { begun: 0, left: 98 }),
        Turn { actions: vec![Action::Log(Message::NoFeature)], next: Next::Done }
    );
}

#[test]
fn attempt_does_not_go_on_at_another_keyboard() {
    for device in [DEVICE, DEVICE + 1] {
        let mut state = started();
        state.on_attach(Some(DEVICE));
        state.on_opened(DEVICE, 0);
        state.on_detach();
        state.on_attach(Some(device));
        let turn = state.on_opened(device, 0);
        assert_eq!(turn.next, Next::Pump(Wait::Probe { begun: 1, left: 99 }));
        let before = state;
        for wait in [
            Wait::Probe { begun: 0, left: 0 },
            Wait::Probe { begun: 0, left: 7 },
            Wait::Settle { begun: 0, rounds: 3 },
            Wait::Confirm { begun: 0, rounds: 0, left: 0 },
        ] {
            assert_eq!(state.failure_of(wait), None);
            assert_eq!(state.on_pumped(wait), Turn { actions: vec![], next: Next::Done });
            assert_eq!(state, before);
        }
        assert_eq!(
            state.on_pumped(Wait::Probe { begun: 1, left: 7 }).next,
            Next::Pump(Wait::Probe { begun: 1, left: 6 })
        );
    }
}

#[test]
fn detaches_are_counted_past_their_limit() {
    let mut state = started();
    state.detaches = u64::MAX;
    state.on_detach();
    assert_eq!(state.detaches, 0);
}

#[test]
fn shutdown_parks_a_retry_that_is_owed() {
    let (mut state, mut keyboard) = (started(), Keyboard::new());
    keyboard.obeys = false;
    let turn = state.on_attach(Some(DEVICE));
    let record = carry_out(&mut state, turn, &mut keyboard, 0);
    assert_eq!(record.timer, [Some(1)]);
    let turn = state.shutdown();
    let record = carry_out(&mut state, turn, &mut keyboard, 0);
    assert_eq!(record.timer, [None]);
    assert_eq!(record.closed, [Some(DEVICE)]);
}

#[test]
fn answer_before_a_detach_ends_the_wait_on_the_way_out() {
    for (flags, next) in [
        (0x00, Next::Done),
        (0x01, Next::Pump(Wait::Clear { rounds: 18 })),
    ] {
        let (mut state, _) = live();
        state.shutdown();
        state.on_pumped(Wait::Clear { rounds: 19 });
        state.on_report(0x11, &reply(INDEX, 2, &[0x00, 0xE1, flags]));
        state.on_detach();
        assert_eq!(state.on_pumped(Wait::Check { rounds: 19, left: 99 }).next, next);
    }
}

#[test]
fn shutdown_hands_the_key_back() {
    let (mut state, mut keyboard) = live();
    let turn = state.shutdown();
    assert_eq!(turn.actions, [Action::ParkRetry, state.set_divert(false)]);
    let record = carry_out(&mut state, turn, &mut keyboard, 0);
    assert!(!keyboard.diverted);
    assert_eq!(record.closed, [Some(DEVICE)]);
    assert_eq!(record.log, [Message::DivertCleared]);
}

#[test]
fn shutdown_without_a_keyboard_does_nothing() {
    let idle = Turn { actions: vec![], next: Next::Done };
    assert_eq!(started().shutdown(), idle);
    let mut state = started();
    state.on_attach(Some(DEVICE));
    assert_eq!(state.shutdown(), idle);
}

#[test]
fn stubborn_keyboard_is_closed_after_twenty_rounds() {
    let (mut state, mut keyboard) = live();
    keyboard.obeys = false;
    keyboard.waiting.clear();
    let turn = state.shutdown();
    let record = carry_out(&mut state, turn, &mut keyboard, 0);
    assert!(keyboard.diverted);
    assert_eq!(record.closed, [Some(DEVICE)]);
    assert!(record.pumps >= 40);
}

#[test]
fn unanswered_shutdown_closes_after_one_round() {
    let (mut state, mut keyboard) = live();
    keyboard.answers = false;
    keyboard.waiting.clear();
    let turn = state.on_pumped(Wait::Clear { rounds: 19 });
    let record = carry_out(&mut state, turn, &mut keyboard, 0);
    assert_eq!(record.pumps, 100);
    assert_eq!(record.closed, [Some(DEVICE)]);
    assert_eq!(record.log, [Message::DivertCleared]);
}
