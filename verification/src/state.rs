//! The daemon itself: what it knows, and what it does about each thing that
//! happens.
//!
//! Bringing the keyboard up and handing the key back both wait on the
//! keyboard, and waiting runs the run loop, which lets other things happen in
//! between. So neither is one long function here. Each is cut where it waits:
//! a step hands back the actions that are due and what to wait for, and the
//! next step takes up from there, on whatever the state has become meanwhile.

use vstd::arithmetic::power2::{lemma2_to64, lemma_pow2_strictly_increases, pow2};
use vstd::prelude::*;

use crate::config::Config;
use crate::hidpp::{
    control_of, feature_of, fit, function_of, high_byte, is_hidpp, lemma_report_of_view, low_byte,
    message_bytes, read_report, report_of, request, request_bytes, software_id_of, split_u16,
    Incoming, FEATURE_REPROG_CONTROLS_V4, FEATURE_ROOT, GET_REPORTING, PAYLOAD_LEN, REPORT_LEN,
    ROOT_GET_FEATURE, SET_REPORTING, SOFTWARE_ID,
};
use crate::message::{Failure, Message};

verus! {

/// What opening a device returns when it worked.
pub const IORETURN_SUCCESS: i32 = 0;

/// What opening a device returns while nobody has granted it: 0xE00002E2.
pub const IORETURN_NOT_PERMITTED: i32 = -536_870_174;

/// The flag that real function-key events carry. The window server matches
/// hotkeys on function keys only where it is set.
pub const EVENT_FLAG_SECONDARY_FN: u64 = 0x0080_0000;

/// How often the run loop is pumped for one reply.
pub const REPLY_PUMPS: u32 = 100;

/// How often the keyboard is asked to confirm the divert.
pub const CONFIRM_ROUNDS: u32 = 40;

/// How often the keyboard is asked, before exiting, whether the divert is gone.
pub const CLEAR_ROUNDS: u32 = 20;

/// The most seconds between two attempts.
pub const RETRY_MAX_DELAY: u32 = 30;

/// What the root feature said about another feature.
#[derive(Clone, Copy, PartialEq, Eq, Debug)]
pub enum Probe {
    /// The feature's index in the device's own table.
    Ready(u8),
    /// The device answered that it has no such feature.
    Absent,
    /// The device did not answer, which says nothing about the feature.
    Silent,
}

/// Something for the platform to do. A device is named by the address of its
/// reference; `None` stands for a null reference.
#[derive(Clone, Copy, PartialEq, Eq, Debug)]
pub enum Action {
    /// Write a line to the log.
    Log(Message),
    /// Have the device's input reports delivered.
    Listen(usize),
    /// Send an output report, whose id is its first byte.
    Send { device: Option<usize>, report: [u8; REPORT_LEN] },
    /// Post a keyboard event.
    PostKey { key_code: u16, down: bool, flags: u64 },
    /// Have the retry timer fire after so many seconds.
    ArmRetry(u32),
    /// Have the retry timer never fire.
    ParkRetry,
    /// Close the device.
    Close(Option<usize>),
}

/// What a step is waiting for while the run loop is pumped.
#[derive(Clone, Copy, PartialEq, Eq, Debug)]
pub enum Wait {
    /// The feature's index, for so many more pumps behind this one. The attempt
    /// was begun after so many detaches.
    Probe { begun: u64, left: u32 },
    /// One pump before the divert is asked about, with so many more such
    /// rounds behind this one.
    Settle { begun: u64, rounds: u32 },
    /// Word that the control is diverted.
    Confirm { begun: u64, rounds: u32, left: u32 },
    /// As `Settle`, on the way out.
    Clear { rounds: u32 },
    /// Word that the control is no longer diverted.
    Check { rounds: u32, left: u32 },
}

/// What is to happen before the next step.
#[derive(Clone, Copy, PartialEq, Eq, Debug)]
pub enum Next {
    /// Open the device and take up with `State::on_opened`.
    Open(usize),
    /// Pump the run loop once and take up with `State::on_pumped`.
    Pump(Wait),
    /// Nothing.
    Done,
}

/// What a step hands back.
#[derive(PartialEq, Eq, Debug)]
pub struct Turn {
    /// What to do now, in this order.
    pub actions: Vec<Action>,
    /// What to do then.
    pub next: Next,
}

/// What a step comes to: the state behind it and what it hands back.
#[verifier::ext_equal]
pub struct Outcome {
    pub state: State,
    pub actions: Seq<Action>,
    pub next: Next,
}

/// The outcome of a step that left `state` behind and handed back `turn`.
pub open spec fn outcome_of(state: State, turn: Turn) -> Outcome {
    Outcome { state, actions: turn.actions@, next: turn.next }
}

/// What the daemon knows.
#[derive(Clone, Copy, PartialEq, Eq, Debug)]
pub struct State {
    pub cfg: Config,
    /// The keyboard that is held, if one is.
    pub device: Option<usize>,
    /// The index of the diverting feature in this keyboard's table, or 0.
    pub feature: u8,
    /// Whether the control is held down.
    pub pressed: bool,
    /// The last reply.
    pub reply: [u8; REPORT_LEN],
    /// Whether `reply` answers the last request.
    pub have_reply: bool,
    /// The feature whose reply is awaited.
    pub want_feature: u8,
    /// The function whose reply is awaited.
    pub want_function: u8,
    /// Whether the keyboard that is held is open.
    pub opened: bool,
    /// Failures since the last success.
    pub attempt: u32,
    /// How often a keyboard was detached. It tells an attempt that its keyboard
    /// went away, though another one may have taken its place.
    pub detaches: u64,
}

/// The seconds to the next attempt after `failures` earlier ones: one at
/// first, twice as many each time, and never more than the ceiling.
pub open spec fn retry_delay(failures: nat) -> nat {
    if pow2(failures) < RETRY_MAX_DELAY {
        pow2(failures)
    } else {
        RETRY_MAX_DELAY as nat
    }
}

/// The count behind `n`. It starts over where 64 bits are used up.
pub open spec fn count_behind(n: u64) -> u64 {
    if n == u64::MAX {
        0
    } else {
        (n + 1) as u64
    }
}

/// Why opening a device that returned `code` failed, where another attempt is
/// owed.
pub open spec fn open_failure(code: i32) -> Option<Failure> {
    if code == IORETURN_SUCCESS || code == IORETURN_NOT_PERMITTED {
        None
    } else {
        Some(Failure::CannotOpen(code))
    }
}

/// What each thing that can happen comes to.
impl State {
    /// What the daemon knows before anything has happened.
    pub open spec fn initial(cfg: Config) -> State {
        State {
            cfg,
            device: None,
            feature: 0,
            pressed: false,
            reply: report_of(fit(seq![], 20)),
            have_reply: false,
            want_feature: 0,
            want_function: 0,
            opened: false,
            attempt: 0,
            detaches: 0,
        }
    }

    /// Only a keyboard that is held can be open.
    pub open spec fn wf(self) -> bool {
        self.opened ==> self.device is Some
    }

    // Requests.
    /// Asking function `function` of feature `feature`.
    pub open spec fn sending(self, feature: u8, function: u8, params: Seq<u8>) -> Action {
        Action::Send {
            device: self.device,
            report: report_of(request_bytes(feature, function, params)),
        }
    }

    /// Asking the root feature for the index of feature `id`.
    pub open spec fn sending_probe(self, id: u16) -> Action {
        self.sending(FEATURE_ROOT, ROOT_GET_FEATURE, seq![high_byte(id), low_byte(id), 0])
    }

    /// Telling the keyboard to divert the control, or to divert it no longer.
    /// Of the flags, bit 0 is the divert and bit 1 says that bit 0 counts. The
    /// bits that would make the divert outlive this process stay clear.
    pub open spec fn sending_divert(self, on: bool) -> Action {
        self.sending(
            self.feature,
            SET_REPORTING,
            seq![high_byte(self.cfg.cid), low_byte(self.cfg.cid), if on { 0x03 } else { 0x02 }],
        )
    }

    /// Asking the keyboard whether the control is diverted.
    pub open spec fn sending_query(self) -> Action {
        self.sending(
            self.feature,
            GET_REPORTING,
            seq![high_byte(self.cfg.cid), low_byte(self.cfg.cid)],
        )
    }

    /// Awaiting the reply of function `function` of feature `feature`, with none
    /// there yet.
    pub open spec fn awaiting(self, feature: u8, function: u8) -> State {
        State {
            want_feature: feature,
            want_function: (function % 16) as u8,
            have_reply: false,
            ..self
        }
    }

    /// Whether the last request was for function `function` of feature
    /// `feature`, and the reply to it is there.
    pub open spec fn heard(self, feature: u8, function: u8) -> bool {
        &&& self.have_reply
        &&& self.want_feature == feature
        &&& self.want_function == function % 16
    }

    /// Whether to go on waiting for that reply with `left` pumps left.
    pub open spec fn keeps_waiting(self, feature: u8, function: u8, left: u32) -> bool {
        !self.heard(feature, function) && left > 0
    }

    /// What the root feature said, where nothing more is waited for. The
    /// payload's first byte is the index; the root's own index means none.
    pub open spec fn probe(self) -> Probe {
        if !self.heard(FEATURE_ROOT, ROOT_GET_FEATURE) {
            Probe::Silent
        } else if self.reply@[4] == 0 {
            Probe::Absent
        } else {
            Probe::Ready(self.reply@[4])
        }
    }

    /// Whether the keyboard said, under feature `feature`, that the control is
    /// diverted: bit 0 of the flags behind the control's id. Neither silence nor
    /// the echo of a request to divert it is such word.
    pub open spec fn says_diverted(self, feature: u8) -> bool {
        self.heard(feature, GET_REPORTING) && self.reply@[6] % 2 == 1
    }

    // Reports.
    /// Whether the message `m` is the reply that is awaited.
    pub open spec fn is_reply(self, m: Seq<u8>) -> bool {
        &&& is_hidpp(m)
        &&& software_id_of(m) == SOFTWARE_ID
        &&& feature_of(m) == self.want_feature
        &&& function_of(m) == self.want_function
        &&& !self.have_reply
    }

    /// Whether the message `m` lists the diverted controls that are held down.
    pub open spec fn is_notification(self, m: Seq<u8>) -> bool {
        &&& is_hidpp(m)
        &&& software_id_of(m) == 0
        &&& feature_of(m) == self.feature
        &&& function_of(m) == 0
    }

    /// Whether the message `m` says that the control went down.
    pub open spec fn is_press(self, m: Seq<u8>) -> bool {
        self.is_notification(m) && !self.pressed && control_of(m) == self.cfg.cid
    }

    /// Whether the message `m` says that the control came up.
    pub open spec fn is_release(self, m: Seq<u8>) -> bool {
        self.is_notification(m) && self.pressed && control_of(m) == 0
    }

    /// Posting the key, down and up.
    pub open spec fn posting(self) -> Seq<Action> {
        let key_code = self.cfg.key_code;
        let flags = EVENT_FLAG_SECONDARY_FN;
        seq![
            Action::PostKey { key_code, down: true, flags },
            Action::PostKey { key_code, down: false, flags },
        ] + if self.cfg.verbose {
            seq![Action::Log(Message::KeyPosted)]
        } else {
            seq![]
        }
    }

    /// An input report came in.
    pub open spec fn reported(self, report_id: u32, report: Seq<u8>) -> Outcome {
        let m = message_bytes(report_id, report);
        if self.is_reply(m) {
            Outcome {
                state: State { reply: report_of(fit(m, 20)), have_reply: true, ..self },
                actions: seq![],
                next: Next::Done,
            }
        } else if self.is_press(m) {
            Outcome {
                state: State { pressed: true, ..self },
                actions: self.posting(),
                next: Next::Done,
            }
        } else if self.is_release(m) {
            Outcome {
                state: State { pressed: false, ..self },
                actions: seq![],
                next: Next::Done,
            }
        } else {
            Outcome { state: self, actions: seq![], next: Next::Done }
        }
    }

    // Bringing the keyboard up.
    /// A step that changes nothing, does `actions` and then `next`.
    pub open spec fn doing(self, actions: Seq<Action>, next: Next) -> Outcome {
        Outcome { state: self, actions, next }
    }

    /// A step that does nothing but pump once more.
    pub open spec fn pumping(self, wait: Wait) -> Outcome {
        self.doing(seq![], Next::Pump(wait))
    }

    /// The attempt failed, and another one is owed. Only the first failure is
    /// logged.
    pub open spec fn failed(self, why: Failure) -> Outcome {
        Outcome {
            state: State { attempt: (self.attempt + 1) as u32, ..self },
            actions: (if self.attempt == 0 {
                seq![Action::Log(Message::Retrying(why))]
            } else {
                seq![]
            }).push(Action::ArmRetry(retry_delay(self.attempt as nat) as u32)),
            next: Next::Done,
        }
    }

    /// Asking where the diverting feature is, behind the actions `before`.
    pub open spec fn probing(self, before: Seq<Action>) -> Outcome {
        Outcome {
            state: self.awaiting(FEATURE_ROOT, ROOT_GET_FEATURE),
            actions: before.push(self.sending_probe(FEATURE_REPROG_CONTROLS_V4)),
            next: Next::Pump(
                Wait::Probe { begun: self.detaches, left: (REPLY_PUMPS - 1) as u32 },
            ),
        }
    }

    /// Asking whether the control is diverted.
    pub open spec fn querying(self, wait: Wait) -> Outcome {
        Outcome {
            state: self.awaiting(self.feature, GET_REPORTING),
            actions: seq![self.sending_query()],
            next: Next::Pump(wait),
        }
    }

    /// An attempt at everything the daemon needs from the keyboard, behind the
    /// actions `before`: open it, unless it is open already, and ask it where
    /// the diverting feature is.
    pub open spec fn bringing_up(self, before: Seq<Action>) -> Outcome {
        match self.device {
            None => self.doing(before, Next::Done),
            Some(device) if !self.opened => self.doing(before, Next::Open(device)),
            Some(_) => self.probing(before),
        }
    }

    /// The platform opened `device`, or refused to, with `code`. A keyboard
    /// that may not be opened is let go, so that the attach after the grant is
    /// not taken for one too many.
    pub open spec fn opened_with(self, device: usize, code: i32) -> Outcome {
        if let Some(why) = open_failure(code) {
            self.failed(why)
        } else if code == IORETURN_NOT_PERMITTED {
            Outcome {
                state: State { device: None, ..self },
                actions: seq![Action::Log(Message::NotPermitted)],
                next: Next::Done,
            }
        } else {
            State { opened: true, ..self }.probing(seq![Action::Listen(device)])
        }
    }

    /// The keyboard said where the feature is, and is told to divert.
    pub open spec fn diverting(self, begun: u64, feature: u8) -> Outcome {
        let found = State { feature, ..self };
        found.doing(
            seq![found.sending_divert(true)],
            Next::Pump(Wait::Settle { begun, rounds: (CONFIRM_ROUNDS - 1) as u32 }),
        )
    }

    /// The keyboard confirmed the divert.
    pub open spec fn live(self) -> Outcome {
        Outcome {
            state: State { attempt: 0, ..self },
            actions: seq![Action::Log(Message::Diverted(self.attempt)), Action::ParkRetry],
            next: Next::Done,
        }
    }

    /// Whether the keyboard of an attempt that was begun after `begun` detaches
    /// is gone.
    pub open spec fn has_lost(self, begun: u64) -> bool {
        self.device is None || self.detaches != begun
    }

    /// Whether another keyboard has taken the place of the one that the attempt
    /// was begun for.
    pub open spec fn has_replaced(self, begun: u64) -> bool {
        self.device is Some && self.detaches != begun
    }

    /// Why the attempt ends in failure at this pump, where it does. Without its
    /// keyboard there is nothing to try again.
    pub open spec fn wait_failure(self, wait: Wait) -> Option<Failure> {
        match wait {
            Wait::Probe { begun, left } if !self.has_lost(begun) && !self.awaits_index(left)
                && self.probe() is Silent => Some(Failure::NoAnswer),
            Wait::Confirm { begun, rounds, left } if !self.has_lost(begun) && !self.awaits_word(
                self.feature,
                left,
            ) && !self.says_diverted(self.feature) && rounds == 0 => Some(Failure::NotConfirmed),
            _ => None,
        }
    }

    /// Whether to go on waiting for the feature's index.
    pub open spec fn awaits_index(self, left: u32) -> bool {
        self.keeps_waiting(FEATURE_ROOT, ROOT_GET_FEATURE, left)
    }

    /// Whether to go on waiting for word of the divert under feature `feature`.
    pub open spec fn awaits_word(self, feature: u8, left: u32) -> bool {
        self.keeps_waiting(feature, GET_REPORTING, left)
    }

    /// The run loop was pumped once for `wait`. An attempt whose keyboard went
    /// away meanwhile does not wait for it: the next attach starts a fresh one.
    /// Only an index that it had already named is still acted on, unless
    /// another keyboard has taken its place.
    pub open spec fn pumped(self, wait: Wait) -> Outcome {
        match wait {
            Wait::Probe { begun, left } => if self.has_replaced(begun) {
                self.doing(seq![], Next::Done)
            } else {
                match self.probe() {
                    Probe::Absent => self.doing(
                        seq![Action::Log(Message::NoFeature)],
                        Next::Done,
                    ),
                    Probe::Ready(feature) => self.diverting(begun, feature),
                    Probe::Silent => if self.device is None {
                        self.doing(seq![], Next::Done)
                    } else if left > 0 {
                        self.pumping(Wait::Probe { begun, left: (left - 1) as u32 })
                    } else {
                        self.failed(Failure::NoAnswer)
                    },
                }
            },
            Wait::Settle { begun, rounds } => if self.has_lost(begun) {
                self.doing(seq![], Next::Done)
            } else {
                self.querying(Wait::Confirm { begun, rounds, left: (REPLY_PUMPS - 1) as u32 })
            },
            Wait::Confirm { begun, rounds, left } => if self.has_lost(begun) {
                self.doing(seq![], Next::Done)
            } else if self.awaits_word(self.feature, left) {
                self.pumping(Wait::Confirm { begun, rounds, left: (left - 1) as u32 })
            } else if self.says_diverted(self.feature) {
                self.live()
            } else if rounds > 0 {
                self.pumping(Wait::Settle { begun, rounds: (rounds - 1) as u32 })
            } else {
                self.failed(Failure::NotConfirmed)
            },
            Wait::Clear { rounds } => self.querying(
                Wait::Check { rounds, left: (REPLY_PUMPS - 1) as u32 },
            ),
            Wait::Check { rounds, left } => if self.awaits_word(self.want_feature, left) {
                self.pumping(Wait::Check { rounds, left: (left - 1) as u32 })
            } else if self.says_diverted(self.want_feature) && rounds > 0 {
                self.pumping(Wait::Clear { rounds: (rounds - 1) as u32 })
            } else {
                self.doing(
                    seq![Action::Close(self.device), Action::Log(Message::DivertCleared)],
                    Next::Done,
                )
            },
        }
    }

    /// A keyboard was attached. One that is held already stays.
    pub open spec fn attached(self, device: Option<usize>) -> Outcome {
        if self.device is Some {
            self.doing(seq![], Next::Done)
        } else {
            State { device, opened: false, attempt: 0, ..self }.bringing_up(
                seq![Action::Log(Message::Attached)],
            )
        }
    }

    /// The keyboard was detached.
    pub open spec fn detached(self) -> Outcome {
        Outcome {
            state: State {
                device: None,
                feature: 0,
                pressed: false,
                opened: false,
                attempt: 0,
                detaches: count_behind(self.detaches),
                ..self
            },
            actions: seq![Action::Log(Message::Detached), Action::ParkRetry],
            next: Next::Done,
        }
    }

    /// Another attempt is due. The timer is parked first, so that it cannot
    /// fire into the attempt.
    pub open spec fn retry_due(self) -> Outcome {
        self.bringing_up(seq![Action::ParkRetry])
    }

    /// The daemon is told to exit, and hands the key back where it has it. The
    /// timer is parked first, so that no attempt diverts the control again.
    pub open spec fn shutting_down(self) -> Outcome {
        if self.device is None || self.feature == 0 {
            self.doing(seq![], Next::Done)
        } else {
            self.doing(
                seq![Action::ParkRetry, self.sending_divert(false)],
                Next::Pump(Wait::Clear { rounds: (CLEAR_ROUNDS - 1) as u32 }),
            )
        }
    }
}

/// Why opening a device that returned `code` failed, where another attempt is
/// owed.
pub fn failure_to_open(code: i32) -> (failure: Option<Failure>)
    ensures
        failure == open_failure(code),
{
    if code == IORETURN_SUCCESS || code == IORETURN_NOT_PERMITTED {
        None
    } else {
        Some(Failure::CannotOpen(code))
    }
}

/// Requests, and what the keyboard says to them.
impl State {
    /// Starts with nothing but a configuration.
    pub fn new(cfg: Config) -> (state: State)
        ensures
            state == State::initial(cfg),
            state.wf(),
    {
        let reply: [u8; REPORT_LEN] = [0u8; REPORT_LEN];
        proof {
            lemma_report_of_view(reply);
            assert(reply@ =~= fit(seq![], 20));
        }
        State {
            cfg,
            device: None,
            feature: 0,
            pressed: false,
            reply,
            have_reply: false,
            want_feature: 0,
            want_function: 0,
            opened: false,
            attempt: 0,
            detaches: 0,
        }
    }

    /// Sends a request to the keyboard that is held.
    pub fn send(&self, feature: u8, function: u8, params: &[u8]) -> (action: Action)
        ensures
            action == self.sending(feature, function, params@),
    {
        let report: [u8; REPORT_LEN] = request(feature, function, params);
        proof {
            lemma_report_of_view(report);
        }
        Action::Send { device: self.device, report }
    }

    /// Sends a request and awaits the reply to it. Whether it is there yet,
    /// `keep_waiting` says, and what it holds, `reply_payload`.
    pub fn call(&mut self, feature: u8, function: u8, params: &[u8]) -> (action: Action)
        ensures
            *final(self) == old(self).awaiting(feature, function),
            action == old(self).sending(feature, function, params@),
    {
        self.want_feature = feature;
        self.want_function = function % 16;
        self.have_reply = false;
        self.send(feature, function, params)
    }

    /// Whether the last request was for this function of this feature, and the
    /// reply to it is there.
    fn has_heard(&self, feature: u8, function: u8) -> (heard: bool)
        ensures
            heard == self.heard(feature, function),
    {
        self.have_reply && self.want_feature == feature && self.want_function == function % 16
    }

    /// Whether to pump once more for the reply to a request for function
    /// `function` of feature `feature`, with `left` pumps left.
    pub fn keep_waiting(&self, feature: u8, function: u8, left: u32) -> (waits: bool)
        ensures
            waits == self.keeps_waiting(feature, function, left),
    {
        !self.has_heard(feature, function) && left > 0
    }

    /// The payload of the reply to a request for function `function` of feature
    /// `feature`, if that was the last request and its reply has come.
    pub fn reply_payload(&self, feature: u8, function: u8) -> (payload: Option<
        [u8; PAYLOAD_LEN],
    >)
        ensures
            payload is Some <==> self.heard(feature, function),
            payload matches Some(bytes) ==> bytes@ == self.reply@.subrange(4, 20),
    {
        if !self.has_heard(feature, function) {
            return None;
        }
        let mut bytes: [u8; PAYLOAD_LEN] = [0u8; PAYLOAD_LEN];
        let mut i: usize = 0;
        while i < PAYLOAD_LEN
            invariant
                i <= PAYLOAD_LEN,
                forall|j: int| 0 <= j < i ==> bytes@[j] == self.reply@[j + 4],
            decreases PAYLOAD_LEN - i,
        {
            bytes[i] = self.reply[i + 4];
            i = i + 1;
        }
        assert(bytes@ =~= self.reply@.subrange(4, 20));
        Some(bytes)
    }

    /// Asks for the index of the feature `id`.
    pub fn ask_feature_index(&mut self, id: u16) -> (action: Action)
        ensures
            *final(self) == old(self).awaiting(FEATURE_ROOT, ROOT_GET_FEATURE),
            action == old(self).sending_probe(id),
    {
        let (high, low): (u8, u8) = split_u16(id);
        let params: [u8; 3] = [high, low, 0];
        assert(params@ =~= seq![high_byte(id), low_byte(id), 0]);
        self.call(FEATURE_ROOT, ROOT_GET_FEATURE, &params)
    }

    /// What came of asking for a feature's index, where nothing more is
    /// waited for.
    pub fn feature_index(&self) -> (probe: Probe)
        ensures
            probe == self.probe(),
    {
        match self.reply_payload(FEATURE_ROOT, ROOT_GET_FEATURE) {
            None => Probe::Silent,
            Some(payload) => {
                assert(payload@[0] == self.reply@[4]);
                if payload[0] == 0 {
                    Probe::Absent
                } else {
                    Probe::Ready(payload[0])
                }
            },
        }
    }

    /// Diverts the control, or diverts it no longer.
    pub fn set_divert(&self, on: bool) -> (action: Action)
        ensures
            action == self.sending_divert(on),
    {
        let (high, low): (u8, u8) = split_u16(self.cfg.cid);
        let flags: u8 = if on { 0x03 } else { 0x02 };
        let params: [u8; 3] = [high, low, flags];
        assert(params@ =~= seq![high_byte(self.cfg.cid), low_byte(self.cfg.cid), flags]);
        self.send(self.feature, SET_REPORTING, &params)
    }

    /// Asks whether the control is diverted.
    pub fn ask_divert(&mut self) -> (action: Action)
        ensures
            *final(self) == old(self).awaiting(old(self).feature, GET_REPORTING),
            action == old(self).sending_query(),
    {
        let (high, low): (u8, u8) = split_u16(self.cfg.cid);
        let params: [u8; 2] = [high, low];
        assert(params@ =~= seq![high_byte(self.cfg.cid), low_byte(self.cfg.cid)]);
        self.call(self.feature, GET_REPORTING, &params)
    }

    /// Whether the keyboard said, under feature `feature`, that the control is
    /// diverted.
    pub fn divert_is_set(&self, feature: u8) -> (diverted: bool)
        ensures
            diverted == self.says_diverted(feature),
    {
        match self.reply_payload(feature, GET_REPORTING) {
            None => false,
            Some(payload) => {
                let flags: u8 = payload[2];
                assert(payload@[2] == self.reply@[6]);
                assert((flags & 0x01 != 0) == (flags % 2 == 1)) by (bit_vector);
                flags & 0x01 != 0
            },
        }
    }
}

/// What to do about what happens.
impl State {
    /// Posts the key for the control.
    pub fn fire(&self) -> (actions: Vec<Action>)
        ensures
            actions@ == self.posting(),
    {
        let key_code: u16 = self.cfg.key_code;
        let flags: u64 = EVENT_FLAG_SECONDARY_FN;
        let mut actions: Vec<Action> = Vec::new();
        actions.push(Action::PostKey { key_code, down: true, flags });
        actions.push(Action::PostKey { key_code, down: false, flags });
        if self.cfg.verbose {
            actions.push(Action::Log(Message::KeyPosted));
        }
        assert(actions@ =~= self.posting());
        actions
    }

    /// An input report came in: the reply that is awaited, word of the
    /// control, or something that is none of our business.
    pub fn on_report(&mut self, report_id: u32, report: &[u8]) -> (actions: Vec<Action>)
        ensures
            *final(self) == old(self).reported(report_id, report@).state,
            actions@ == old(self).reported(report_id, report@).actions,
            old(self).wf() ==> final(self).wf(),
    {
        let incoming: Incoming = match read_report(report_id, report) {
            Some(incoming) => incoming,
            None => {
                return Vec::new();
            },
        };
        if incoming.software_id == SOFTWARE_ID && incoming.feature == self.want_feature
            && incoming.function == self.want_function && !self.have_reply {
            proof {
                lemma_report_of_view(incoming.report);
            }
            self.reply = incoming.report;
            self.have_reply = true;
            return Vec::new();
        }
        if incoming.feature == self.feature && incoming.function == 0 && incoming.software_id
            == 0 {
            if incoming.control == self.cfg.cid && !self.pressed {
                self.pressed = true;
                return self.fire();
            } else if incoming.control == 0 && self.pressed {
                self.pressed = false;
            }
        }
        Vec::new()
    }

    /// Notes that the attempt failed and has another one made.
    pub fn retry(&mut self, why: Failure) -> (turn: Turn)
        requires
            old(self).attempt < u32::MAX,
        ensures
            outcome_of(*final(self), turn) == old(self).failed(why),
    {
        let n: u32 = self.attempt;
        let mut actions: Vec<Action> = Vec::new();
        if n == 0 {
            actions.push(Action::Log(Message::Retrying(why)));
        }
        self.attempt = n + 1;
        let exponent: u32 = if n < 5 { n } else { 5 };
        let delay: u32 = 1u32 << exponent;
        proof {
            lemma2_to64();
            assert(exponent == 0 ==> 1u32 << exponent == 1) by (bit_vector);
            assert(exponent == 1 ==> 1u32 << exponent == 2) by (bit_vector);
            assert(exponent == 2 ==> 1u32 << exponent == 4) by (bit_vector);
            assert(exponent == 3 ==> 1u32 << exponent == 8) by (bit_vector);
            assert(exponent == 4 ==> 1u32 << exponent == 16) by (bit_vector);
            assert(exponent == 5 ==> 1u32 << exponent == 32) by (bit_vector);
            if n > 5 {
                lemma_pow2_strictly_increases(5, n as nat);
            }
        }
        actions.push(
            Action::ArmRetry(if delay < RETRY_MAX_DELAY { delay } else { RETRY_MAX_DELAY }),
        );
        Turn { actions, next: Next::Done }
    }

    /// Starts an attempt at bringing the keyboard up.
    pub fn try_bring_up(&mut self) -> (turn: Turn)
        ensures
            outcome_of(*final(self), turn) == old(self).bringing_up(seq![]),
            old(self).wf() ==> final(self).wf(),
    {
        let device: usize = match self.device {
            Some(device) => device,
            None => {
                return Turn { actions: Vec::new(), next: Next::Done };
            },
        };
        if !self.opened {
            return Turn { actions: Vec::new(), next: Next::Open(device) };
        }
        self.locate_feature(Vec::new())
    }

    /// Asks where the diverting feature is, behind the actions `before`.
    fn locate_feature(&mut self, before: Vec<Action>) -> (turn: Turn)
        ensures
            outcome_of(*final(self), turn) == old(self).probing(before@),
    {
        let mut actions: Vec<Action> = before;
        let ask: Action = self.ask_feature_index(FEATURE_REPROG_CONTROLS_V4);
        actions.push(ask);
        let wait = Wait::Probe { begun: self.detaches, left: REPLY_PUMPS - 1 };
        Turn { actions, next: Next::Pump(wait) }
    }

    /// Asks whether the control is diverted, and waits as `wait` says.
    fn query_divert(&mut self, wait: Wait) -> (turn: Turn)
        ensures
            outcome_of(*final(self), turn) == old(self).querying(wait),
    {
        let mut actions: Vec<Action> = Vec::new();
        let ask: Action = self.ask_divert();
        actions.push(ask);
        Turn { actions, next: Next::Pump(wait) }
    }

    /// Takes up an attempt once the platform has opened `device`, or refused
    /// to, with `code`.
    pub fn on_opened(&mut self, device: usize, code: i32) -> (turn: Turn)
        requires
            open_failure(code) is Some ==> old(self).attempt < u32::MAX,
        ensures
            outcome_of(*final(self), turn) == old(self).opened_with(device, code),
            old(self).wf() && old(self).device is Some && !old(self).opened ==> final(self).wf(),
    {
        if let Some(why) = failure_to_open(code) {
            return self.retry(why);
        }
        let mut actions: Vec<Action> = Vec::new();
        if code == IORETURN_NOT_PERMITTED {
            actions.push(Action::Log(Message::NotPermitted));
            self.device = None;
            return Turn { actions, next: Next::Done };
        }
        actions.push(Action::Listen(device));
        self.opened = true;
        self.locate_feature(actions)
    }

    /// Why the attempt would end in failure if `on_pumped` took it up now, where
    /// it would.
    pub fn failure_of(&self, wait: Wait) -> (failure: Option<Failure>)
        ensures
            failure == self.wait_failure(wait),
    {
        match wait {
            Wait::Probe { begun, left } => {
                if self.lost(begun) || self.keep_waiting(FEATURE_ROOT, ROOT_GET_FEATURE, left) {
                    return None;
                }
                match self.feature_index() {
                    Probe::Silent => Some(Failure::NoAnswer),
                    _ => None,
                }
            },
            Wait::Confirm { begun, rounds, left } => {
                if rounds > 0 || self.lost(begun) || self.keep_waiting(
                    self.feature,
                    GET_REPORTING,
                    left,
                ) || self.divert_is_set(self.feature) {
                    None
                } else {
                    Some(Failure::NotConfirmed)
                }
            },
            _ => None,
        }
    }

    /// Whether the keyboard of an attempt that was begun after `begun` detaches
    /// is gone.
    fn lost(&self, begun: u64) -> (gone: bool)
        ensures
            gone == self.has_lost(begun),
    {
        self.device.is_none() || self.detaches != begun
    }

    /// Takes up what `wait` waits for, once the run loop was pumped.
    pub fn on_pumped(&mut self, wait: Wait) -> (turn: Turn)
        requires
            old(self).wait_failure(wait) is Some ==> old(self).attempt < u32::MAX,
        ensures
            outcome_of(*final(self), turn) == old(self).pumped(wait),
            old(self).wf() ==> final(self).wf(),
    {
        if let Some(why) = self.failure_of(wait) {
            return self.retry(why);
        }
        let mut actions: Vec<Action> = Vec::new();
        match wait {
            Wait::Probe { begun, left } => {
                if self.device.is_some() && self.detaches != begun {
                    return Turn { actions, next: Next::Done };
                }
                match self.feature_index() {
                    Probe::Absent => {
                        actions.push(Action::Log(Message::NoFeature));
                        Turn { actions, next: Next::Done }
                    },
                    Probe::Ready(feature) => {
                        self.feature = feature;
                        actions.push(self.set_divert(true));
                        let settle = Wait::Settle { begun, rounds: CONFIRM_ROUNDS - 1 };
                        Turn { actions, next: Next::Pump(settle) }
                    },
                    Probe::Silent => {
                        if self.device.is_none() {
                            return Turn { actions, next: Next::Done };
                        }
                        let again = Wait::Probe { begun, left: left - 1 };
                        Turn { actions, next: Next::Pump(again) }
                    },
                }
            },
            Wait::Settle { begun, rounds } => {
                if self.lost(begun) {
                    return Turn { actions, next: Next::Done };
                }
                self.query_divert(Wait::Confirm { begun, rounds, left: REPLY_PUMPS - 1 })
            },
            Wait::Confirm { begun, rounds, left } => {
                if self.lost(begun) {
                    return Turn { actions, next: Next::Done };
                }
                if self.keep_waiting(self.feature, GET_REPORTING, left) {
                    let again = Wait::Confirm { begun, rounds, left: left - 1 };
                    return Turn { actions, next: Next::Pump(again) };
                }
                if self.divert_is_set(self.feature) {
                    actions.push(Action::Log(Message::Diverted(self.attempt)));
                    actions.push(Action::ParkRetry);
                    self.attempt = 0;
                    return Turn { actions, next: Next::Done };
                }
                let again = Wait::Settle { begun, rounds: rounds - 1 };
                Turn { actions, next: Next::Pump(again) }
            },
            Wait::Clear { rounds } => {
                self.query_divert(Wait::Check { rounds, left: REPLY_PUMPS - 1 })
            },
            Wait::Check { rounds, left } => {
                if self.keep_waiting(self.want_feature, GET_REPORTING, left) {
                    let again = Wait::Check { rounds, left: left - 1 };
                    return Turn { actions, next: Next::Pump(again) };
                }
                if self.divert_is_set(self.want_feature) && rounds > 0 {
                    let again = Wait::Clear { rounds: rounds - 1 };
                    return Turn { actions, next: Next::Pump(again) };
                }
                actions.push(Action::Close(self.device));
                actions.push(Action::Log(Message::DivertCleared));
                Turn { actions, next: Next::Done }
            },
        }
    }

    /// A keyboard was attached: brings it up, unless one is held already.
    pub fn on_attach(&mut self, device: Option<usize>) -> (turn: Turn)
        ensures
            outcome_of(*final(self), turn) == old(self).attached(device),
            old(self).wf() ==> final(self).wf(),
    {
        if self.device.is_some() {
            return Turn { actions: Vec::new(), next: Next::Done };
        }
        self.device = device;
        self.opened = false;
        self.attempt = 0;
        self.bring_up_behind(Action::Log(Message::Attached))
    }

    /// Does `first`, then starts an attempt at bringing the keyboard up.
    fn bring_up_behind(&mut self, first: Action) -> (turn: Turn)
        ensures
            outcome_of(*final(self), turn) == old(self).bringing_up(seq![first]),
    {
        let mut actions: Vec<Action> = Vec::new();
        actions.push(first);
        let mut turn: Turn = self.try_bring_up();
        actions.append(&mut turn.actions);
        Turn { actions, next: turn.next }
    }

    /// The keyboard was detached: forgets it and what it was doing.
    pub fn on_detach(&mut self) -> (turn: Turn)
        ensures
            outcome_of(*final(self), turn) == old(self).detached(),
            final(self).wf(),
    {
        self.device = None;
        self.feature = 0;
        self.pressed = false;
        self.opened = false;
        self.attempt = 0;
        self.detaches = if self.detaches == u64::MAX { 0 } else { self.detaches + 1 };
        let mut actions: Vec<Action> = Vec::new();
        actions.push(Action::Log(Message::Detached));
        actions.push(Action::ParkRetry);
        Turn { actions, next: Next::Done }
    }

    /// The retry timer fired: parks it and makes another attempt.
    pub fn on_retry_due(&mut self) -> (turn: Turn)
        ensures
            outcome_of(*final(self), turn) == old(self).retry_due(),
            old(self).wf() ==> final(self).wf(),
    {
        self.bring_up_behind(Action::ParkRetry)
    }

    /// Starts to hand the key back before the daemon exits.
    pub fn shutdown(&self) -> (turn: Turn)
        ensures
            outcome_of(*self, turn) == self.shutting_down(),
    {
        let mut actions: Vec<Action> = Vec::new();
        if self.device.is_none() || self.feature == 0 {
            return Turn { actions, next: Next::Done };
        }
        actions.push(Action::ParkRetry);
        actions.push(self.set_divert(false));
        Turn { actions, next: Next::Pump(Wait::Clear { rounds: CLEAR_ROUNDS - 1 }) }
    }
}

} // verus!
