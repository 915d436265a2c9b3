//! What holds of the daemon whatever happens to it, and in whatever order.

pub mod steps;

use vstd::arithmetic::power2::{lemma2_to64, lemma_pow2_pos, lemma_pow2_unfold};
use vstd::prelude::*;

use crate::config::Config;
use crate::hidpp::{
    byte_at, control_of, fit, high_byte, lemma_view_report_of, low_byte, message_bytes, report_of,
    request_bytes, DEVICE_INDEX, FEATURE_REPROG_CONTROLS_V4, FEATURE_ROOT, GET_REPORTING,
    REPORT_LONG, ROOT_GET_FEATURE, SET_REPORTING, SOFTWARE_ID,
};
use crate::message::{Failure, Message};
use crate::state::{
    count_behind, open_failure, retry_delay, Action, Next, Outcome, State, Wait, CLEAR_ROUNDS, CONFIRM_ROUNDS,
    EVENT_FLAG_SECONDARY_FN, IORETURN_NOT_PERMITTED, IORETURN_SUCCESS, REPLY_PUMPS,
};

verus! {

/// Something that happens to the daemon.
pub enum Event {
    /// A keyboard was attached.
    Attached(Option<usize>),
    /// The keyboard was detached.
    Detached,
    /// An input report came in under this report id.
    Reported(u32, Seq<u8>),
    /// The retry timer fired.
    RetryDue,
    /// The device was opened, or was not, with this code.
    Opened(usize, i32),
    /// The run loop was pumped once.
    Pumped(Wait),
    /// The daemon was told to exit.
    ShutDown,
}

impl State {
    /// What `event` comes to.
    pub open spec fn after(self, event: Event) -> Outcome {
        match event {
            Event::Attached(device) => self.attached(device),
            Event::Detached => self.detached(),
            Event::Reported(report_id, report) => self.reported(report_id, report),
            Event::RetryDue => self.retry_due(),
            Event::Opened(device, code) => self.opened_with(device, code),
            Event::Pumped(wait) => self.pumped(wait),
            Event::ShutDown => self.shutting_down(),
        }
    }

    /// Why `event` ends an attempt in a failure that another attempt may mend,
    /// where it does.
    pub open spec fn failure(self, event: Event) -> Option<Failure> {
        match event {
            Event::Opened(_, code) => open_failure(code),
            Event::Pumped(wait) => self.wait_failure(wait),
            _ => None,
        }
    }

    /// Whether `event` can happen: a device is opened only on request, and
    /// failures can still be counted.
    pub open spec fn admits(self, event: Event) -> bool {
        &&& event matches Event::Opened(device, _) ==> self.device == Some(device) && !self.opened
        &&& self.failure(event) is Some ==> self.attempt < u32::MAX
    }

    /// What the daemon knows after `events`, in this order.
    pub open spec fn after_all(self, events: Seq<Event>) -> State
        decreases events.len(),
    {
        if events.len() == 0 {
            self
        } else {
            self.after_all(events.drop_last()).after(events.last()).state
        }
    }

    /// Whether `events` can happen, in this order.
    pub open spec fn admits_all(self, events: Seq<Event>) -> bool
        decreases events.len(),
    {
        if events.len() == 0 {
            true
        } else {
            &&& self.admits_all(events.drop_last())
            &&& self.after_all(events.drop_last()).admits(events.last())
            &&& events.last() matches Event::Opened(device, _) ==> self.has_just_asked_to_open(
                events.drop_last(),
                device,
            )
        }
    }

    /// Whether the last of `events` asked for `device` to be opened. Nothing
    /// happens between that and the opening.
    pub open spec fn has_just_asked_to_open(self, events: Seq<Event>, device: usize) -> bool {
        events.len() > 0 && self.after_all(events.drop_last()).after(events.last()).next
            == Next::Open(device)
    }

    /// How often `events` post the key.
    pub open spec fn posts(self, events: Seq<Event>) -> nat
        decreases events.len(),
    {
        if events.len() == 0 {
            0
        } else {
            let before = self.after_all(events.drop_last());
            self.posts(events.drop_last()) + if presses(before, events.last()) {
                1nat
            } else {
                0nat
            }
        }
    }

    /// How often `events` let the control go after it was down.
    pub open spec fn lets_go(self, events: Seq<Event>) -> nat
        decreases events.len(),
    {
        if events.len() == 0 {
            0
        } else {
            let before = self.after_all(events.drop_last());
            self.lets_go(events.drop_last()) + if before.pressed && !before.after(
                events.last(),
            ).state.pressed {
                1nat
            } else {
                0nat
            }
        }
    }
}

/// Whether `event` is a report that the control went down.
pub open spec fn presses(state: State, event: Event) -> bool {
    event matches Event::Reported(report_id, report) && {
        let m = message_bytes(report_id, report);
        !state.is_reply(m) && state.is_press(m)
    }
}

/// Only a keyboard that is held is ever taken for open, and the configuration
/// is never touched.
pub proof fn law_state_stays_well_formed(cfg: Config, events: Seq<Event>)
    requires
        State::initial(cfg).admits_all(events),
    ensures
        State::initial(cfg).after_all(events).wf(),
        State::initial(cfg).after_all(events).cfg == cfg,
    decreases events.len(),
{
    if events.len() > 0 {
        law_state_stays_well_formed(cfg, events.drop_last());
    }
}

/// Whether `action` is no request, or one that is addressed to the keyboard
/// itself in the long report, under our software id. If it changes how a
/// control is reported, that control is `cid`, and nothing but the divert is
/// changed: it is never made to outlive the process, nor is the control
/// remapped.
pub open spec fn is_soft(action: Action, cid: u16) -> bool {
    action matches Action::Send { device, report } ==> {
        &&& report@[0] == REPORT_LONG
        &&& report@[1] == DEVICE_INDEX
        &&& report@[3] % 16 == SOFTWARE_ID
        &&& report@[3] / 16 == SET_REPORTING ==> {
            &&& report@[4] == high_byte(cid)
            &&& report@[5] == low_byte(cid)
            &&& report@[6] == 0x02 || report@[6] == 0x03
            &&& forall|i: int| 7 <= i < 20 ==> report@[i] == 0
        }
    }
}

/// Every request is addressed to the keyboard that is held, if one is, and none
/// of them diverts another control or diverts one for good.
pub proof fn law_requests_are_soft(state: State, event: Event)
    requires
        state.admits(event),
    ensures
        forall|i: int|
            0 <= i < state.after(event).actions.len() ==> is_soft(
                #[trigger] state.after(event).actions[i],
                state.cfg.cid,
            ),
        forall|i: int|
            0 <= i < state.after(event).actions.len() ==> (
            #[trigger] state.after(event).actions[i] matches Action::Send { device, .. } ==> device
                == state.after(event).state.device),
{
    broadcast use lemma_view_report_of;

}

/// A key is posted only for word of the control on the vendor channel, and it
/// is the configured key, with the function-key flag set.
pub proof fn law_keys_are_posted_for_presses_alone(state: State, event: Event, i: int)
    requires
        state.admits(event),
        0 <= i < state.after(event).actions.len(),
        state.after(event).actions[i] is PostKey,
    ensures
        presses(state, event),
        !state.pressed,
        state.after(event).state.pressed,
        state.after(event).actions[i]->key_code == state.cfg.key_code,
        state.after(event).actions[i]->flags == EVENT_FLAG_SECONDARY_FN,
{
}

/// Every report that the control went down posts the key, down and up.
pub proof fn law_presses_post_the_key(state: State, event: Event)
    requires
        presses(state, event),
    ensures
        state.after(event).actions == state.posting(),
        state.after(event).state == (State { pressed: true, ..state }),
{
}

/// A control that is held down posts its key once: between any two posts it
/// was let go, or the keyboard was detached.
pub proof fn law_posts_alternate_with_releases(state: State, events: Seq<Event>)
    requires
        state.admits_all(events),
    ensures
        state.posts(events) + (if state.pressed { 1int } else { 0int }) == state.lets_go(events)
            + (if state.after_all(events).pressed { 1int } else { 0int }),
    decreases events.len(),
{
    if events.len() > 0 {
        law_posts_alternate_with_releases(state, events.drop_last());
    }
}

/// No report is both a reply to us and a notification.
pub proof fn law_replies_are_no_notifications(state: State, m: Seq<u8>)
    ensures
        !(state.is_reply(m) && state.is_notification(m)),
{
}

/// An ordinary input report does nothing, under whatever report id it comes:
/// neither the report that the diverted key would have sent, nor that of the
/// key that shares its usage.
pub proof fn law_ordinary_reports_do_nothing(state: State, report_id: u32, report: Seq<u8>)
    requires
        report.len() > 0,
        report[0] != REPORT_LONG,
        report[0] != DEVICE_INDEX,
    ensures
        state.reported(report_id, report) == state.doing(seq![], Next::Done),
{
    let m = message_bytes(report_id, report);
    assert(m[1] == report[0]);
}

/// Whether `report` has the header of a request for `function` of `feature`,
/// and is long enough to be a reply to it.
pub open spec fn answers(report: Seq<u8>, feature: u8, function: u8) -> bool {
    &&& report.len() >= 7
    &&& report.take(4) == request_bytes(feature, function, seq![]).take(4)
}

/// A request names itself: sent back as it is, it counts as its own reply.
pub proof fn law_request_matches_its_reply(feature: u8, function: u8, params: Seq<u8>)
    ensures
        answers(request_bytes(feature, function, params), feature, function),
        request_bytes(feature, function, params).len() == 20,
{
    assert(request_bytes(feature, function, params).take(4) =~= request_bytes(
        feature,
        function,
        seq![],
    ).take(4));
}

/// The reply to a request is seen for what it is: whoever waits for it waits no
/// longer, with however many pumps left, and finds the reply's own bytes.
pub proof fn law_awaited_reply_is_seen(
    state: State,
    feature: u8,
    function: u8,
    report_id: u32,
    report: Seq<u8>,
    left: u32,
)
    requires
        answers(report, feature, function),
    ensures
        ({
            let after = state.awaiting(feature, function).reported(report_id, report);
            &&& after.state == State {
                reply: report_of(fit(report, 20)),
                have_reply: true,
                ..state.awaiting(feature, function)
            }
            &&& after.state.reply@ == fit(report, 20)
            &&& after.actions == Seq::<Action>::empty()
            &&& after.state.heard(feature, function)
            &&& !after.state.keeps_waiting(feature, function, left)
        }),
{
    let header = request_bytes(feature, function, seq![]);
    assert(report[0] == report.take(4)[0] && header[0] == header.take(4)[0]);
    assert(report[1] == report.take(4)[1] && header[1] == header.take(4)[1]);
    assert(report[2] == report.take(4)[2] && header[2] == header.take(4)[2]);
    assert(report[3] == report.take(4)[3] && header[3] == header.take(4)[3]);
    lemma_view_report_of(fit(report, 20));
}

/// The reply to another function of the same feature, such as the late echo of
/// an earlier request, is not taken for the reply that is awaited.
pub proof fn law_other_functions_do_not_answer(
    state: State,
    feature: u8,
    function: u8,
    other: u8,
    report_id: u32,
    report: Seq<u8>,
)
    requires
        answers(report, feature, other),
        other % 16 != function % 16,
    ensures
        state.awaiting(feature, function).reported(report_id, report) == state.awaiting(
            feature,
            function,
        ).doing(seq![], Next::Done),
{
    let header = request_bytes(feature, other, seq![]);
    assert(report[0] == report.take(4)[0] && header[0] == header.take(4)[0]);
    assert(report[3] == report.take(4)[3] && header[3] == header.take(4)[3]);
}

/// A reply that has come stays until the next request: no report changes it.
pub proof fn law_first_reply_stays(state: State, report_id: u32, report: Seq<u8>)
    requires
        state.have_reply,
    ensures
        state.reported(report_id, report).state.reply == state.reply,
        state.reported(report_id, report).state.have_reply,
{
}

/// Whether the reply that is there, if one is, came from the keyboard itself,
/// to us, and answers the function of the feature that was asked last.
pub open spec fn reply_matches(state: State) -> bool {
    state.have_reply ==> {
        &&& state.reply@[0] == REPORT_LONG
        &&& state.reply@[1] == DEVICE_INDEX
        &&& state.reply@[2] == state.want_feature
        &&& state.reply@[3] % 16 == SOFTWARE_ID
        &&& state.reply@[3] / 16 == state.want_function
    }
}

/// At every time, what the daemon takes for a reply came from the keyboard
/// itself, to us, and answers the function of the feature that was asked last.
pub proof fn law_reply_answers_the_last_request(cfg: Config, events: Seq<Event>)
    requires
        State::initial(cfg).admits_all(events),
    ensures
        reply_matches(State::initial(cfg).after_all(events)),
    decreases events.len(),
{
    broadcast use lemma_view_report_of;

    if events.len() > 0 {
        law_reply_answers_the_last_request(cfg, events.drop_last());
    }
}

/// A keyboard that is held is not exchanged for another one.
pub proof fn law_second_keyboard_is_ignored(state: State, device: Option<usize>)
    requires
        state.device is Some,
    ensures
        state.attached(device) == state.doing(seq![], Next::Done),
{
}

/// Whatever the daemon was in the middle of, a keyboard that is attached after
/// a detach is brought up from the beginning, on a clean count of failures and
/// with no attempt still owed.
pub proof fn law_reattached_keyboard_starts_afresh(state: State, device: usize)
    ensures
        ({
            let gone = state.detached();
            let back = gone.state.attached(Some(device));
            &&& gone.actions.last() == Action::ParkRetry
            &&& back.next == Next::Open(device)
            &&& back.state == State {
                device: Some(device),
                feature: 0,
                pressed: false,
                opened: false,
                attempt: 0,
                detaches: count_behind(state.detaches),
                ..state
            }
        }),
{
}

/// A keyboard that may not be opened is let go and not tried again by itself.
/// The attach that follows the grant is acted on.
pub proof fn law_refused_keyboard_is_let_go(state: State, device: usize, later: usize)
    requires
        state.admits(Event::Opened(device, IORETURN_NOT_PERMITTED)),
    ensures
        ({
            let refused = state.opened_with(device, IORETURN_NOT_PERMITTED);
            &&& refused.actions == seq![Action::Log(Message::NotPermitted)]
            &&& refused.next is Done
            &&& refused.state.attached(Some(later)).next == Next::Open(later)
        }),
{
}

/// A keyboard that says it has no such feature is not tried again, while one
/// that says nothing is.
pub proof fn law_absence_is_not_silence(state: State, begun: u64, left: u32)
    requires
        !state.has_lost(begun),
        !state.awaits_index(left),
        state.attempt < u32::MAX,
    ensures
        state.probe() is Absent ==> state.pumped(Wait::Probe { begun, left }) == state.doing(
            seq![Action::Log(Message::NoFeature)],
            Next::Done,
        ),
        state.probe() is Silent ==> state.pumped(Wait::Probe { begun, left }).actions.last()
            == Action::ArmRetry(retry_delay(state.attempt as nat) as u32),
{
}

/// The timer is armed where an attempt failed and nowhere else, for one second
/// at least and half a minute at most, and the attempt then ends.
pub proof fn law_retry_is_armed_for_failures_alone(state: State, event: Event)
    requires
        state.admits(event),
    ensures
        state.failure(event) is Some <==> exists|i: int|
            0 <= i < state.after(event).actions.len()
                && #[trigger] state.after(event).actions[i] is ArmRetry,
        forall|i: int|
            0 <= i < state.after(event).actions.len() ==> (
            #[trigger] state.after(event).actions[i] matches Action::ArmRetry(delay) ==> 1 <= delay
                <= 30),
        state.failure(event) is Some ==> {
            &&& state.after(event).next is Done
            &&& state.after(event).actions.last() == Action::ArmRetry(
                retry_delay(state.attempt as nat) as u32,
            )
            &&& state.after(event).state.attempt == state.attempt + 1
        },
{
    law_retry_delay_doubles_up_to_ceiling(state.attempt as nat);
    let after = state.after(event);
    if state.failure(event) is Some {
        assert(after.actions[after.actions.len() - 1] is ArmRetry);
    }
}

/// The delay is one second at first and doubles with each failure, up to half
/// a minute, where it stays.
pub proof fn law_retry_delay_doubles_up_to_ceiling(failures: nat)
    ensures
        retry_delay(0) == 1,
        retry_delay(failures + 1) == if 2 * retry_delay(failures) < 30 {
            2 * retry_delay(failures)
        } else {
            30
        },
        1 <= retry_delay(failures) <= retry_delay(failures + 1) <= 30,
{
    lemma2_to64();
    lemma_pow2_unfold(failures + 1);
    lemma_pow2_pos(failures);
}

/// The lines that `actions` log, in their order.
pub open spec fn logged(actions: Seq<Action>) -> Seq<Message>
    decreases actions.len(),
{
    if actions.len() == 0 {
        seq![]
    } else {
        let before = logged(actions.drop_last());
        match actions.last() {
            Action::Log(message) => before.push(message),
            _ => before,
        }
    }
}

/// The lines that the failures `whys` log, one after another.
pub open spec fn failure_lines(state: State, whys: Seq<Failure>) -> Seq<Message>
    decreases whys.len(),
{
    if whys.len() == 0 {
        seq![]
    } else {
        logged(state.failed(whys[0]).actions) + failure_lines(
            state.failed(whys[0]).state,
            whys.skip(1),
        )
    }
}

/// However many attempts fail in a row, only the first failure is logged.
pub proof fn law_only_first_failure_is_logged(state: State, whys: Seq<Failure>)
    requires
        state.attempt + whys.len() <= u32::MAX,
    ensures
        failure_lines(state, whys) == if state.attempt == 0 && whys.len() > 0 {
            seq![Message::Retrying(whys[0])]
        } else {
            seq![]
        },
    decreases whys.len(),
{
    if whys.len() > 0 {
        let first = state.failed(whys[0]);
        law_only_first_failure_is_logged(first.state, whys.skip(1));
        reveal_with_fuel(logged, 3);
        let silent = Seq::<Action>::empty();
        let armed = Action::ArmRetry(retry_delay(state.attempt as nat) as u32);
        assert(silent.push(armed).drop_last() =~= silent);
        let line = Action::Log(Message::Retrying(whys[0]));
        assert(seq![line].push(armed).drop_last() =~= seq![line]);
        assert(seq![line].drop_last() =~= silent);
        assert(failure_lines(state, whys) =~= logged(first.actions));
    }
}

/// Another attempt is owed only to a keyboard that is held.
pub proof fn law_failures_are_of_a_keyboard_that_is_held(state: State, event: Event)
    requires
        state.admits(event),
        state.failure(event) is Some,
    ensures
        state.after(event).state.device is Some,
{
}

/// Whether the attempt that waits as `wait` says has lost its keyboard.
pub open spec fn attempt_has_lost(state: State, wait: Wait) -> bool {
    match wait {
        Wait::Probe { begun, .. } => state.has_lost(begun),
        Wait::Settle { begun, .. } => state.has_lost(begun),
        Wait::Confirm { begun, .. } => state.has_lost(begun),
        _ => false,
    }
}

/// An attempt whose keyboard went away ends at the next pump, and nothing is
/// said, sent or owed. Where no other keyboard is held and this one had named
/// the feature's index before it went, or that it has none, the attempt still
/// acts on that, and ends one pump later at most.
pub proof fn law_attempt_ends_with_its_keyboard(state: State, wait: Wait)
    requires
        attempt_has_lost(state, wait),
    ensures
        state.device is Some || !(wait is Probe) || state.probe() is Silent ==> state.pumped(wait)
            == state.doing(seq![], Next::Done),
        state.pumped(wait).next matches Next::Pump(again) ==> again is Settle && attempt_has_lost(
            state.pumped(wait).state,
            again,
        ),
        state.failure(Event::Pumped(wait)) is None,
{
}

/// How often `events` detach a keyboard.
pub open spec fn detach_count(events: Seq<Event>) -> nat
    decreases events.len(),
{
    if events.len() == 0 {
        0
    } else {
        detach_count(events.drop_last()) + if events.last() is Detached {
            1nat
        } else {
            0nat
        }
    }
}

/// A detach is not forgotten, though another keyboard, or the same one, was
/// attached at once: an attempt that was begun before it has lost its keyboard.
pub proof fn law_detach_ends_the_attempts_before_it(state: State, events: Seq<Event>)
    requires
        detach_count(events) <= u64::MAX,
    ensures
        state.after_all(events).detaches == (state.detaches + detach_count(events))
            % 0x1_0000_0000_0000_0000,
        detach_count(events) > 0 ==> state.after_all(events).has_lost(state.detaches),
    decreases events.len(),
{
    if events.len() > 0 {
        law_detach_ends_the_attempts_before_it(state, events.drop_last());
    }
}

/// How often `events` open a device with success.
pub open spec fn opens(events: Seq<Event>) -> nat
    decreases events.len(),
{
    if events.len() == 0 {
        0
    } else {
        opens(events.drop_last()) + match events.last() {
            Event::Opened(_, code) if code == IORETURN_SUCCESS => 1nat,
            _ => 0nat,
        }
    }
}

/// A keyboard is not opened twice: as long as nothing is detached, at most one
/// opening succeeds, and it has succeeded just where the keyboard is taken for
/// open.
pub proof fn law_keyboard_is_opened_once(state: State, events: Seq<Event>)
    requires
        state.admits_all(events),
        state.wf(),
        !state.opened,
        forall|i: int| 0 <= i < events.len() ==> !(#[trigger] events[i] is Detached),
    ensures
        opens(events) <= 1,
        opens(events) == 1 <==> state.after_all(events).opened,
        state.after_all(events).wf(),
    decreases events.len(),
{
    if events.len() > 0 {
        assert(!(events[events.len() - 1] is Detached));
        law_keyboard_is_opened_once(state, events.drop_last());
    }
}

/// A step asks for a keyboard to be opened only while it is held and not open
/// yet.
pub proof fn law_open_keyboard_is_not_opened_again(state: State, event: Event)
    requires
        state.admits(event),
    ensures
        state.after(event).next matches Next::Open(device) ==> {
            &&& !state.after(event).state.opened
            &&& state.after(event).state.device == Some(device)
        },
{
}

/// The daemon claims success only for a keyboard that is held and whose answer
/// to being asked about the control says that it is diverted. Then no attempt
/// is owed any more.
pub proof fn law_success_is_confirmed(state: State, event: Event, i: int, failures: u32)
    requires
        state.admits(event),
        reply_matches(state),
        0 <= i < state.after(event).actions.len(),
        state.after(event).actions[i] == Action::Log(Message::Diverted(failures)),
    ensures
        state.device is Some,
        state.have_reply,
        state.reply@[2] == state.feature,
        state.reply@[3] / 16 == GET_REPORTING,
        state.reply@[6] % 2 == 1,
        failures == state.attempt,
        state.after(event).state.attempt == 0,
        state.after(event).actions.last() == Action::ParkRetry,
        state.after(event).next is Done,
{
}

/// An attempt never ends without a word: another one is owed, or the keyboard
/// confirmed the divert, or the log says why no attempt could help, or its
/// keyboard is gone.
pub proof fn law_attempts_do_not_just_end(state: State, event: Event)
    requires
        state.admits(event),
        event is Opened || (event matches Event::Pumped(wait) && (wait is Probe || wait is Settle
            || wait is Confirm)),
        state.after(event).next is Done,
    ensures
        ({
            let actions = state.after(event).actions;
            ||| state.failure(event) is Some && actions.last() is ArmRetry
            ||| state.says_diverted(state.feature) && actions[0] == Action::Log(
                Message::Diverted(state.attempt),
            )
            ||| state.probe() is Absent && actions == seq![Action::Log(Message::NoFeature)]
            ||| event matches Event::Opened(_, code) && code == IORETURN_NOT_PERMITTED && actions
                == seq![Action::Log(Message::NotPermitted)]
            ||| event matches Event::Pumped(wait) && attempt_has_lost(state, wait) && actions
                == Seq::<Action>::empty()
        }),
{
}

/// The timer is parked before the attempt that it called for, so that it cannot
/// fire into it.
pub proof fn law_timer_is_parked_before_the_attempt(state: State)
    ensures
        state.retry_due().actions[0] == Action::ParkRetry,
        state.retry_due().actions.skip(1) == state.bringing_up(seq![]).actions,
        state.retry_due().state == state.bringing_up(seq![]).state,
        state.retry_due().next == state.bringing_up(seq![]).next,
{
    assert(state.retry_due().actions.skip(1) =~= state.bringing_up(seq![]).actions);
}

/// How often the run loop is pumped at most from `next` on.
pub open spec fn pumps_left(next: Next) -> nat {
    let reply = REPLY_PUMPS as nat;
    match next {
        Next::Pump(Wait::Probe { left, .. }) => left as nat + 1 + CONFIRM_ROUNDS as nat * (1 + reply),
        Next::Pump(Wait::Settle { rounds, .. }) => (rounds as nat + 1) * (1 + reply),
        Next::Pump(Wait::Confirm { rounds, left, .. }) => rounds as nat * (1 + reply) + left as nat
            + 1,
        Next::Pump(Wait::Clear { rounds }) => (rounds as nat + 1) * (1 + reply),
        Next::Pump(Wait::Check { rounds, left }) => rounds as nat * (1 + reply) + left as nat + 1,
        _ => 0,
    }
}

/// Waiting comes to an end, whatever the state is at each pump: every pump
/// leaves fewer pumps to come, and nothing is opened in between.
pub proof fn law_waiting_ends(state: State, wait: Wait)
    ensures
        pumps_left(state.pumped(wait).next) < pumps_left(Next::Pump(wait)),
        !(state.pumped(wait).next is Open),
{
    let rounds = match wait {
        Wait::Settle { rounds, .. } => rounds,
        Wait::Confirm { rounds, .. } => rounds,
        Wait::Clear { rounds } => rounds,
        Wait::Check { rounds, .. } => rounds,
        Wait::Probe { .. } => 0,
    };
    assert((rounds as nat + 1) * 101 == rounds as nat * 101 + 101);
}

/// No event starts a wait of more than some four thousand pumps.
pub proof fn law_waiting_is_bounded(state: State, event: Event)
    requires
        state.admits(event),
        !(event is Pumped),
    ensures
        pumps_left(state.after(event).next) <= 100 + 40 * 101,
{
}

/// What comes of `next` while nothing happens but the pumping that it asks
/// for.
pub open spec fn undisturbed(state: State, next: Next) -> Outcome
    decreases pumps_left(next),
{
    match next {
        Next::Pump(wait) => {
            proof {
                law_waiting_ends(state, wait);
            }
            let step = state.pumped(wait);
            let rest = undisturbed(step.state, step.next);
            Outcome { actions: step.actions + rest.actions, ..rest }
        },
        _ => Outcome { state, actions: seq![], next },
    }
}

/// A keyboard that never answers is asked where the feature is, once, and when
/// patience is at an end another attempt is owed.
pub proof fn law_silent_keyboard_is_tried_again(state: State)
    requires
        state.device is Some,
        state.opened,
        state.attempt < u32::MAX,
    ensures
        ({
            let started = state.bringing_up(seq![]);
            &&& started.actions == seq![state.sending_probe(FEATURE_REPROG_CONTROLS_V4)]
            &&& undisturbed(started.state, started.next) == started.state.failed(Failure::NoAnswer)
        }),
{
    let started = state.bringing_up(seq![]);
    lemma_silent_probe_fails(started.state, state.detaches, (REPLY_PUMPS - 1) as u32);
}

proof fn lemma_silent_probe_fails(state: State, begun: u64, left: u32)
    requires
        !state.has_lost(begun),
        !state.have_reply,
        state.attempt < u32::MAX,
    ensures
        undisturbed(state, Next::Pump(Wait::Probe { begun, left })) == state.failed(Failure::NoAnswer),
    decreases left,
{
    let step = state.pumped(Wait::Probe { begun, left });
    if left > 0 {
        lemma_silent_probe_fails(state, begun, (left - 1) as u32);
    } else {
        assert(undisturbed(step.state, step.next).actions =~= seq![]);
    }
    assert(step.actions + undisturbed(step.state, step.next).actions =~= state.failed(
        Failure::NoAnswer,
    ).actions);
}

/// A keyboard that answers is brought up at the first attempt: it is opened,
/// asked for the feature's index, told to divert the control, asked whether it
/// does, and taken at its word. Pumps that bring no answer yet, before each of
/// the two, change nothing.
pub proof fn law_answering_keyboard_is_brought_up(
    state: State,
    device: usize,
    index_id: u32,
    index_report: Seq<u8>,
    index_left: u32,
    divert_id: u32,
    divert_report: Seq<u8>,
    divert_left: u32,
)
    requires
        state.device is None,
        answers(index_report, FEATURE_ROOT, ROOT_GET_FEATURE),
        byte_at(index_report, 4) != 0,
        answers(divert_report, byte_at(index_report, 4), GET_REPORTING),
        byte_at(divert_report, 6) % 2 == 1,
    ensures
        ({
            let begun = state.detaches;
            let attached = state.attached(Some(device));
            let open = attached.state.opened_with(device, IORETURN_SUCCESS);
            let located = open.state.reported(index_id, index_report).state;
            let diverting = located.pumped(Wait::Probe { begun, left: index_left });
            let rounds = (CONFIRM_ROUNDS - 1) as u32;
            let asking = diverting.state.pumped(Wait::Settle { begun, rounds });
            let told = asking.state.reported(divert_id, divert_report).state;
            let live = told.pumped(Wait::Confirm { begun, rounds, left: divert_left });
            &&& attached.next == Next::Open(device)
            &&& open.actions == seq![
                Action::Listen(device),
                open.state.sending_probe(FEATURE_REPROG_CONTROLS_V4),
            ]
            &&& open.next == Next::Pump(Wait::Probe { begun, left: (REPLY_PUMPS - 1) as u32 })
            &&& forall|left: u32|
                left > 0 ==> #[trigger] open.state.pumped(Wait::Probe { begun, left })
                    == open.state.pumping(Wait::Probe { begun, left: (left - 1) as u32 })
            &&& diverting.actions == seq![diverting.state.sending_divert(true)]
            &&& diverting.next == Next::Pump(Wait::Settle { begun, rounds })
            &&& asking.actions == seq![diverting.state.sending_query()]
            &&& asking.next == Next::Pump(
                Wait::Confirm { begun, rounds, left: (REPLY_PUMPS - 1) as u32 },
            )
            &&& forall|left: u32|
                left > 0 ==> #[trigger] asking.state.pumped(Wait::Confirm { begun, rounds, left })
                    == asking.state.pumping(Wait::Confirm { begun, rounds, left: (left - 1) as u32 })
            &&& live.actions == seq![Action::Log(Message::Diverted(0)), Action::ParkRetry]
            &&& live.next is Done
            &&& live.state.device == Some(device)
            &&& live.state.opened
            &&& live.state.feature == byte_at(index_report, 4)
            &&& live.state.attempt == 0
        }),
{
    let begun = state.detaches;
    let attached = state.attached(Some(device));
    let open = attached.state.opened_with(device, IORETURN_SUCCESS);
    let open_state = State { opened: true, ..attached.state };
    law_awaited_reply_is_seen(
        open_state,
        FEATURE_ROOT,
        ROOT_GET_FEATURE,
        index_id,
        index_report,
        index_left,
    );
    let located = open.state.reported(index_id, index_report).state;
    let diverting = located.pumped(Wait::Probe { begun, left: index_left });
    law_awaited_reply_is_seen(
        diverting.state,
        diverting.state.feature,
        GET_REPORTING,
        divert_id,
        divert_report,
        divert_left,
    );
    assert(open.actions =~= seq![
        Action::Listen(device),
        open.state.sending_probe(FEATURE_REPROG_CONTROLS_V4),
    ]);
}

/// A keyboard that is diverted but never says so is asked in every round, and
/// when the last one is over another attempt is owed.
pub proof fn law_unconfirmed_divert_is_tried_again(state: State, begun: u64, rounds: u32)
    requires
        !state.has_lost(begun),
        state.attempt < u32::MAX,
    ensures
        ({
            let failed = state.awaiting(state.feature, GET_REPORTING).failed(Failure::NotConfirmed);
            undisturbed(state, Next::Pump(Wait::Settle { begun, rounds })) == (Outcome {
                actions: Seq::new(rounds as nat + 1, |i: int| state.sending_query())
                    + failed.actions,
                ..failed
            })
        }),
    decreases rounds,
{
    let asking = state.pumped(Wait::Settle { begun, rounds });
    let failed = asking.state.failed(Failure::NotConfirmed);
    let queries = Seq::new(rounds as nat + 1, |i: int| state.sending_query());
    lemma_silent_round_passes(asking.state, begun, rounds, (REPLY_PUMPS - 1) as u32);
    if rounds > 0 {
        law_unconfirmed_divert_is_tried_again(asking.state, begun, (rounds - 1) as u32);
        let fewer = Seq::new(rounds as nat, |i: int| asking.state.sending_query());
        assert(asking.state.awaiting(asking.state.feature, GET_REPORTING) == asking.state);
        assert(seq![state.sending_query()] + (fewer + failed.actions) =~= queries
            + failed.actions);
    } else {
        assert(seq![state.sending_query()] + failed.actions =~= queries + failed.actions);
    }
}

/// A keyboard that answers that the control is not diverted is asked again in
/// the next round, and after the last one another attempt is owed.
pub proof fn law_denied_divert_is_tried_again(
    state: State,
    begun: u64,
    rounds: u32,
    report_id: u32,
    report: Seq<u8>,
    left: u32,
)
    requires
        !state.has_lost(begun),
        state.attempt < u32::MAX,
        answers(report, state.feature, GET_REPORTING),
        byte_at(report, 6) % 2 == 0,
    ensures
        ({
            let asking = state.pumped(Wait::Settle { begun, rounds });
            let told = asking.state.reported(report_id, report).state;
            &&& asking.actions == seq![state.sending_query()]
            &&& told.pumped(Wait::Confirm { begun, rounds, left }) == if rounds > 0 {
                told.pumping(Wait::Settle { begun, rounds: (rounds - 1) as u32 })
            } else {
                told.failed(Failure::NotConfirmed)
            }
        }),
{
    law_awaited_reply_is_seen(state, state.feature, GET_REPORTING, report_id, report, left);
}

proof fn lemma_silent_round_passes(state: State, begun: u64, rounds: u32, left: u32)
    requires
        !state.has_lost(begun),
        !state.have_reply,
        state.attempt < u32::MAX,
    ensures
        undisturbed(state, Next::Pump(Wait::Confirm { begun, rounds, left })) == if rounds > 0 {
            undisturbed(state, Next::Pump(Wait::Settle { begun, rounds: (rounds - 1) as u32 }))
        } else {
            state.failed(Failure::NotConfirmed)
        },
    decreases left,
{
    let step = state.pumped(Wait::Confirm { begun, rounds, left });
    let rest = undisturbed(step.state, step.next);
    if left > 0 {
        lemma_silent_round_passes(state, begun, rounds, (left - 1) as u32);
    }
    if left > 0 || rounds > 0 {
        assert(step.actions + rest.actions =~= rest.actions);
    } else {
        assert(rest.actions =~= seq![]);
        assert(step.actions + rest.actions =~= step.actions);
    }
}

/// Whether `report` is a notification of `feature` whose first control is
/// `cid`.
pub open spec fn notifies(report: Seq<u8>, feature: u8, cid: u16) -> bool {
    &&& report.len() >= 7
    &&& report.take(6) == seq![
        REPORT_LONG,
        DEVICE_INDEX,
        feature,
        0,
        high_byte(cid),
        low_byte(cid),
    ]
}

/// Each press of the diverted control posts the key, once however often the
/// keyboard repeats that the control is held down, and again after it was let
/// go.
pub proof fn law_each_press_posts_the_key_once(
    state: State,
    press_id: u32,
    press: Seq<u8>,
    release_id: u32,
    release: Seq<u8>,
)
    requires
        state.cfg.cid != 0,
        !state.pressed,
        notifies(press, state.feature, state.cfg.cid),
        notifies(release, state.feature, 0),
    ensures
        ({
            let down = state.reported(press_id, press);
            let held = down.state.reported(press_id, press);
            let up = held.state.reported(release_id, release);
            &&& down.actions == state.posting()
            &&& held == down.state.doing(seq![], Next::Done)
            &&& up.actions == Seq::<Action>::empty()
            &&& up.state == state
            &&& up.state.reported(press_id, press).actions == state.posting()
        }),
{
    let cid = state.cfg.cid;
    assert(press.take(6)[0] == press[0] && release.take(6)[0] == release[0]);
    assert(press.take(6)[1] == press[1] && release.take(6)[1] == release[1]);
    assert(press.take(6)[2] == press[2] && release.take(6)[2] == release[2]);
    assert(press.take(6)[3] == press[3] && release.take(6)[3] == release[3]);
    assert(press.take(6)[4] == press[4] && release.take(6)[4] == release[4]);
    assert(press.take(6)[5] == press[5] && release.take(6)[5] == release[5]);
    assert(control_of(press) == cid);
    assert(control_of(release) == 0);
}

/// A daemon that knows the diverting feature of the keyboard it holds tells the
/// keyboard, as its first request on the way out, to divert the control no
/// longer, and has no attempt made any more that could divert it again.
pub proof fn law_shutdown_hands_the_key_back(state: State, device: usize, armed: bool)
    requires
        state.device == Some(device),
        state.feature != 0,
    ensures
        state.shutting_down().actions == seq![
            Action::ParkRetry,
            Action::Send {
                device: Some(device),
                report: report_of(
                    request_bytes(
                        state.feature,
                        SET_REPORTING,
                        seq![high_byte(state.cfg.cid), low_byte(state.cfg.cid), 0x02],
                    ),
                ),
            },
        ],
        state.shutting_down().next == Next::Pump(
            Wait::Clear { rounds: (CLEAR_ROUNDS - 1) as u32 },
        ),
        !armed_after(armed, state.shutting_down().actions),
{
    reveal_with_fuel(armed_after, 2);
    let actions = state.shutting_down().actions;
    assert(actions.drop_last() =~= seq![Action::ParkRetry]);
}

/// Whether `action` tells a keyboard to divert the control.
pub open spec fn diverts(action: Action) -> bool {
    action matches Action::Send { report, .. } && report@[3] / 16 == SET_REPORTING && report@[6]
        == 0x03
}

/// Whether one of `events` made the daemon tell a keyboard to divert the
/// control, and nothing was detached since.
pub open spec fn was_told_to_divert(state: State, events: Seq<Event>) -> bool
    decreases events.len(),
{
    if events.len() == 0 || events.last() is Detached {
        false
    } else {
        let actions = state.after_all(events.drop_last()).after(events.last()).actions;
        ||| was_told_to_divert(state, events.drop_last())
        ||| exists|i: int| 0 <= i < actions.len() && diverts(#[trigger] actions[i])
    }
}

/// Only an index that the keyboard named makes the daemon divert the control,
/// and only a detach makes it forget the index.
proof fn lemma_diverts_under_a_known_index(state: State, event: Event)
    ensures
        forall|i: int|
            0 <= i < state.after(event).actions.len() && diverts(
                #[trigger] state.after(event).actions[i],
            ) ==> {
                &&& event matches Event::Pumped(wait) && wait is Probe
                &&& state.after(event).state.feature != 0
            },
        state.feature != 0 && !(event is Detached) ==> state.after(event).state.feature != 0,
{
    broadcast use lemma_view_report_of;

}

/// Whatever has happened before: where the keyboard that is held was told to
/// divert the control, the daemon's first request on its way out tells it to
/// divert the control no longer.
pub proof fn law_diverted_key_is_handed_back(cfg: Config, events: Seq<Event>)
    requires
        State::initial(cfg).admits_all(events),
        was_told_to_divert(State::initial(cfg), events),
    ensures
        State::initial(cfg).after_all(events).feature != 0,
        State::initial(cfg).after_all(events).device is Some ==> State::initial(cfg).after_all(
            events,
        ).shutting_down().actions == seq![
            Action::ParkRetry,
            State::initial(cfg).after_all(events).sending_divert(false),
        ],
    decreases events.len(),
{
    let start = State::initial(cfg);
    let earlier = events.drop_last();
    if was_told_to_divert(start, earlier) {
        law_diverted_key_is_handed_back(cfg, earlier);
    }
    lemma_diverts_under_a_known_index(start.after_all(earlier), events.last());
}

/// Whether `event` is one of those that a shutdown waits for or that may come
/// in meanwhile from the keyboard it waits for.
pub open spec fn is_of_a_shutdown(event: Event) -> bool {
    match event {
        Event::Reported(..) => true,
        Event::Detached => true,
        Event::Pumped(wait) => wait is Clear || wait is Check,
        _ => false,
    }
}

/// Once the key is being handed back, nothing that the keyboard says, nor its
/// going away, makes the daemon divert the control or arm the timer again.
pub proof fn law_key_stays_handed_back(state: State, events: Seq<Event>)
    requires
        forall|i: int| 0 <= i < events.len() ==> is_of_a_shutdown(#[trigger] events[i]),
    ensures
        !was_told_to_divert(state, events),
        !is_armed(state, events),
    decreases events.len(),
{
    if events.len() > 0 {
        let earlier = events.drop_last();
        let before = state.after_all(earlier);
        assert(is_of_a_shutdown(events[events.len() - 1]));
        law_key_stays_handed_back(state, earlier);
        lemma_diverts_under_a_known_index(before, events.last());
        lemma_parked_without_arming(before.after(events.last()).actions);
    }
}

/// At every pump on its way out the daemon only asks, whatever the state has
/// become, and the last thing it does is to close the keyboard and say so.
pub proof fn law_shutdown_ends_in_a_close(state: State, wait: Wait)
    requires
        wait is Clear || wait is Check,
    ensures
        ({
            let step = state.pumped(wait);
            &&& step.next matches Next::Pump(again) ==> {
                &&& again is Clear || again is Check
                &&& step.actions == Seq::<Action>::empty() || step.actions == seq![
                    state.sending_query(),
                ]
            }
            &&& step.next !is Pump ==> {
                &&& step.next is Done
                &&& step.actions == seq![
                    Action::Close(state.device),
                    Action::Log(Message::DivertCleared),
                ]
            }
        }),
{
}

/// On its way out the daemon asks again for as long as the keyboard answers
/// that the control is still diverted and rounds are left, and closes it at
/// the first answer that it is not. An answer that has come counts, even where
/// the keyboard is detached before it is looked at.
pub proof fn law_shutdown_asks_until_the_key_is_back(
    state: State,
    rounds: u32,
    report_id: u32,
    report: Seq<u8>,
    left: u32,
)
    requires
        answers(report, state.feature, GET_REPORTING),
    ensures
        ({
            let asking = state.pumped(Wait::Clear { rounds });
            let told = asking.state.reported(report_id, report).state;
            &&& asking.actions == seq![state.sending_query()]
            &&& told.pumped(Wait::Check { rounds, left }) == if byte_at(report, 6) % 2 == 1 && rounds
                > 0 {
                told.pumping(Wait::Clear { rounds: (rounds - 1) as u32 })
            } else {
                told.doing(
                    seq![Action::Close(state.device), Action::Log(Message::DivertCleared)],
                    Next::Done,
                )
            }
            &&& told.detached().state.pumped(Wait::Check { rounds, left }).next == told.pumped(
                Wait::Check { rounds, left },
            ).next
        }),
{
    law_awaited_reply_is_seen(state, state.feature, GET_REPORTING, report_id, report, left);
}

/// A keyboard that does not answer on the way out is asked once more and then
/// closed.
pub proof fn law_unanswered_shutdown_closes(state: State, rounds: u32)
    ensures
        undisturbed(state, Next::Pump(Wait::Clear { rounds })) == (Outcome {
            state: state.awaiting(state.feature, GET_REPORTING),
            actions: seq![
                state.sending_query(),
                Action::Close(state.device),
                Action::Log(Message::DivertCleared),
            ],
            next: Next::Done,
        }),
{
    let asking = state.pumped(Wait::Clear { rounds });
    lemma_silent_check_closes(asking.state, rounds, (REPLY_PUMPS - 1) as u32);
    assert(undisturbed(state, Next::Pump(Wait::Clear { rounds })).actions =~= seq![
        state.sending_query(),
        Action::Close(state.device),
        Action::Log(Message::DivertCleared),
    ]);
}

proof fn lemma_silent_check_closes(state: State, rounds: u32, left: u32)
    requires
        !state.have_reply,
    ensures
        undisturbed(state, Next::Pump(Wait::Check { rounds, left })) == state.doing(
            seq![Action::Close(state.device), Action::Log(Message::DivertCleared)],
            Next::Done,
        ),
    decreases left,
{
    let step = state.pumped(Wait::Check { rounds, left });
    if left > 0 {
        lemma_silent_check_closes(state, rounds, (left - 1) as u32);
    } else {
        assert(undisturbed(step.state, step.next).actions =~= seq![]);
    }
    assert(step.actions + undisturbed(step.state, step.next).actions =~= seq![
        Action::Close(state.device),
        Action::Log(Message::DivertCleared),
    ]);
}

/// Whether the retry timer is armed after `events`, if it was parked before.
pub open spec fn is_armed(state: State, events: Seq<Event>) -> bool
    decreases events.len(),
{
    if events.len() == 0 {
        false
    } else {
        let before = state.after_all(events.drop_last());
        armed_after(is_armed(state, events.drop_last()), before.after(events.last()).actions)
    }
}

/// Whether the retry timer is armed after `actions`.
pub open spec fn armed_after(armed: bool, actions: Seq<Action>) -> bool
    decreases actions.len(),
{
    if actions.len() == 0 {
        armed
    } else {
        match actions.last() {
            Action::ArmRetry(_) => true,
            Action::ParkRetry => false,
            _ => armed_after(armed, actions.drop_last()),
        }
    }
}

/// A daemon whose attempts do not fail never wakes up by itself.
pub proof fn law_timer_stays_parked_without_failures(state: State, events: Seq<Event>)
    requires
        state.admits_all(events),
        forall|i: int|
            0 <= i < events.len() ==> state.after_all(events.take(i)).failure(
                #[trigger] events[i],
            ) is None,
    ensures
        !is_armed(state, events),
    decreases events.len(),
{
    if events.len() > 0 {
        let earlier = events.drop_last();
        let n = earlier.len();
        assert forall|i: int| 0 <= i < n implies state.after_all(earlier.take(i)).failure(
            #[trigger] earlier[i],
        ) is None by {
            assert(earlier.take(i) =~= events.take(i));
            assert(earlier[i] == events[i]);
        }
        law_timer_stays_parked_without_failures(state, earlier);
        assert(events.take(n as int) =~= earlier);
        let before = state.after_all(earlier);
        assert(before.failure(events[n as int]) is None);
        law_retry_is_armed_for_failures_alone(before, events.last());
        lemma_parked_without_arming(before.after(events.last()).actions);
    }
}

proof fn lemma_parked_without_arming(actions: Seq<Action>)
    requires
        forall|i: int| 0 <= i < actions.len() ==> !(#[trigger] actions[i] is ArmRetry),
    ensures
        !armed_after(false, actions),
    decreases actions.len(),
{
    if actions.len() > 0 {
        lemma_parked_without_arming(actions.drop_last());
    }
}

/// The timer is parked whenever nothing is owed: where it is armed, a keyboard
/// is held and an attempt at it has failed since the last success.
pub proof fn law_timer_is_parked_when_nothing_is_owed(cfg: Config, events: Seq<Event>)
    requires
        State::initial(cfg).admits_all(events),
    ensures
        is_armed(State::initial(cfg), events) ==> {
            &&& State::initial(cfg).after_all(events).device is Some
            &&& State::initial(cfg).after_all(events).attempt > 0
        },
    decreases events.len(),
{
    let start = State::initial(cfg);
    if events.len() > 0 {
        let earlier = events.drop_last();
        let event = events.last();
        assert(start.admits_all(earlier));
        law_timer_is_parked_when_nothing_is_owed(cfg, earlier);
        if event is Opened {
            let asked = earlier.drop_last();
            assert(start.admits_all(asked));
            law_timer_is_parked_when_nothing_is_owed(cfg, asked);
            lemma_parked_at_the_opening(
                start.after_all(asked),
                earlier.last(),
                is_armed(start, asked),
            );
        }
        lemma_armed_for_a_held_keyboard(start.after_all(earlier), event, is_armed(start, earlier));
    }
}

/// Where the timer is armed only for a failed attempt at a keyboard that is
/// held, it stays so.
proof fn lemma_armed_for_a_held_keyboard(state: State, event: Event, armed: bool)
    requires
        state.admits(event),
        armed ==> state.device is Some && state.attempt > 0,
        event is Opened ==> !armed,
    ensures
        armed_after(armed, state.after(event).actions) ==> {
            &&& state.after(event).state.device is Some
            &&& state.after(event).state.attempt > 0
        },
{
    let actions = state.after(event).actions;
    law_retry_is_armed_for_failures_alone(state, event);
    if state.failure(event) is None {
        if armed {
            lemma_parking_prevails(actions);
            if event is Detached {
                assert(actions[1] == Action::ParkRetry);
            }
            if event matches Event::Pumped(wait) && wait is Confirm && actions.len() > 0 {
                assert(actions[1] == Action::ParkRetry);
            }
        } else {
            lemma_parked_without_arming(actions);
        }
    } else {
        law_failures_are_of_a_keyboard_that_is_held(state, event);
    }
}

/// The timer is parked by the time a keyboard is to be opened.
proof fn lemma_parked_at_the_opening(state: State, event: Event, armed: bool)
    requires
        state.admits(event),
        armed ==> state.device is Some,
        state.after(event).next is Open,
    ensures
        !armed_after(armed, state.after(event).actions),
{
    let actions = state.after(event).actions;
    if event is RetryDue {
        assert(actions.last() == Action::ParkRetry);
    } else {
        assert(event is Attached);
        lemma_parked_without_arming(actions);
    }
}

/// Actions that park the timer and do not arm it leave it parked.
proof fn lemma_parking_prevails(actions: Seq<Action>)
    requires
        forall|i: int| 0 <= i < actions.len() ==> !(#[trigger] actions[i] is ArmRetry),
    ensures
        actions.contains(Action::ParkRetry) ==> !armed_after(true, actions),
    decreases actions.len(),
{
    if actions.len() > 0 && !(actions.last() is ParkRetry) {
        lemma_parking_prevails(actions.drop_last());
        if actions.contains(Action::ParkRetry) {
            let i = actions.index_of(Action::ParkRetry);
            assert(actions.drop_last()[i] == Action::ParkRetry);
        }
    }
}

} // verus!
