//! What each step does, said in the bytes, fields and numbers themselves.
//!
//! Each of these holds of every state: how often attempts have failed, how often
//! a keyboard was detached, which index was known before and which keyboard is
//! looked for make no difference but where one of them says so.

use vstd::arithmetic::power2::{lemma2_to64, lemma_pow2_strictly_increases};
use vstd::prelude::*;

use crate::config::Config;
use crate::hidpp::{lemma_view_report_of, message_bytes};
use crate::laws::Event;
use crate::message::{Failure, Message};
use crate::state::{
    count_behind, open_failure, outcome_of, Action, Next, Outcome, Probe, State, Turn, Wait,
};

verus! {

/// Whether `action` sends `device` the twenty bytes that start with `head` and
/// go on with zeroes.
pub open spec fn sends(action: Action, device: Option<usize>, head: Seq<u8>) -> bool {
    &&& action matches Action::Send { device: to, report }
    &&& to == device
    &&& report@.len() == 20
    &&& forall|i: int|
        0 <= i < 20 ==> #[trigger] report@[i] == (if i < head.len() {
            head[i]
        } else {
            0
        })
}

/// The request for the index of the diverting feature.
pub open spec fn probe_head() -> Seq<u8> {
    seq![0x11u8, 0xFF, 0x00, 0x01, 0x1B, 0x04]
}

/// The request for word of the control `cid` under feature `feature`.
pub open spec fn query_head(feature: u8, cid: u16) -> Seq<u8> {
    seq![0x11u8, 0xFF, feature, 0x21, (cid / 256) as u8, (cid % 256) as u8]
}

/// The request to divert the control `cid` under feature `feature`, as `flags`
/// say.
pub open spec fn divert_head(feature: u8, cid: u16, flags: u8) -> Seq<u8> {
    seq![0x11u8, 0xFF, feature, 0x31, (cid / 256) as u8, (cid % 256) as u8, flags]
}

/// Whether `outcome` leaves `state` behind, does nothing and then `next`.
pub open spec fn is_idle(outcome: Outcome, state: State, next: Next) -> bool {
    &&& outcome.state == state
    &&& outcome.actions.len() == 0
    &&& outcome.next == next
}

/// The seconds to the next attempt after `failures` earlier ones.
pub open spec fn seconds_after(failures: u32) -> u32 {
    if failures == 0 {
        1
    } else if failures == 1 {
        2
    } else if failures == 2 {
        4
    } else if failures == 3 {
        8
    } else if failures == 4 {
        16
    } else {
        30
    }
}

/// Whether `outcome` is that of an attempt at the keyboard of `state` that failed
/// for `why`: it is counted, the timer is armed, and the first failure is
/// logged.
pub open spec fn is_failed(outcome: Outcome, state: State, why: Failure) -> bool {
    let armed = Action::ArmRetry(seconds_after(state.attempt));
    &&& outcome.state == State { attempt: (state.attempt + 1) as u32, ..state }
    &&& outcome.next is Done
    &&& outcome.actions == if state.attempt == 0 {
        seq![Action::Log(Message::Retrying(why)), armed]
    } else {
        seq![armed]
    }
}

/// The daemon starts without a keyboard, a reply or a failure.
pub proof fn law_daemon_starts_with_nothing(cfg: Config)
    ensures
        ({
            let start = State::initial(cfg);
            &&& start.cfg == cfg
            &&& start.device is None
            &&& start.feature == 0 && !start.pressed
            &&& !start.have_reply && start.want_feature == 0 && start.want_function == 0
            &&& !start.opened && start.attempt == 0 && start.detaches == 0
            &&& forall|i: int| 0 <= i < 20 ==> #[trigger] start.reply@[i] == 0
        }),
{
    broadcast use lemma_view_report_of;

}

/// The outcome of a step is what it left behind and what it handed back.
pub proof fn law_outcome_is_what_was_handed_back(state: State, turn: Turn)
    ensures
        outcome_of(state, turn).state == state,
        outcome_of(state, turn).actions == turn.actions@,
        outcome_of(state, turn).next == turn.next,
        state.wf() <==> !(state.opened && state.device is None),
{
}

/// Every request goes to the keyboard that is held, in these bytes. The two that
/// speak of the control name it in the same place and the same order.
pub proof fn law_requests_have_these_bytes(
    state: State,
    feature: u8,
    function: u8,
    params: Seq<u8>,
    id: u16,
)
    ensures
        state.sending(feature, function, params) matches Action::Send { device, report } && {
            &&& device == state.device
            &&& report@.take(3) == seq![0x11u8, 0xFF, feature]
            &&& report@[3] == 16 * (function % 16) + 1
            &&& forall|i: int|
                4 <= i < 20 ==> #[trigger] report@[i] == (if i < 4 + params.len() {
                    params[i - 4]
                } else {
                    0
                })
        },
        sends(
            state.sending_probe(id),
            state.device,
            seq![0x11u8, 0xFF, 0x00, 0x01, (id / 256) as u8, (id % 256) as u8],
        ),
        sends(
            state.sending_query(),
            state.device,
            query_head(state.feature, state.cfg.cid),
        ),
        sends(
            state.sending_divert(true),
            state.device,
            divert_head(state.feature, state.cfg.cid, 0x03),
        ),
        sends(
            state.sending_divert(false),
            state.device,
            divert_head(state.feature, state.cfg.cid, 0x02),
        ),
{
    broadcast use lemma_view_report_of;

    let report = state.sending(feature, function, params)->report;
    assert(report@.take(3) =~= seq![0x11u8, 0xFF, feature]);
}

/// Whatever happens, a request is one of these three, to the keyboard that is
/// held, under the index that is known. So whatever asks about a control or
/// diverts one names the configured control, high byte first.
pub proof fn law_every_request_is_one_of_three(state: State, event: Event, i: int)
    requires
        0 <= i < state.after(event).actions.len(),
        state.after(event).actions[i] is Send,
    ensures
        ({
            let after = state.after(event);
            let (device, feature) = (after.state.device, after.state.feature);
            let cid = state.cfg.cid;
            ||| sends(after.actions[i], device, probe_head())
            ||| sends(after.actions[i], device, query_head(feature, cid))
            ||| sends(after.actions[i], device, divert_head(feature, cid, 0x03))
            ||| sends(after.actions[i], device, divert_head(feature, cid, 0x02))
        }),
        ({
            let after = state.after(event);
            let (device, feature) = (after.state.device, after.state.feature);
            let report = after.actions[i]->report@;
            let cid = state.cfg.cid;
            &&& report[3] == 0x21 ==> sends(after.actions[i], device, query_head(feature, cid))
            &&& report[3] == 0x31 ==> {
                ||| sends(after.actions[i], device, divert_head(feature, cid, 0x03))
                ||| sends(after.actions[i], device, divert_head(feature, cid, 0x02))
            }
            &&& report[3] == 0x21 || report[3] == 0x31 ==> 256 * report[4] + report[5] == cid
        }),
{
    let after = state.after(event);
    law_requests_have_these_bytes(state, 0, 0, seq![], 0x1B04);
    law_requests_have_these_bytes(after.state, 0, 0, seq![], 0x1B04);
    assert(after.state.cfg == state.cfg);
}

/// Asking awaits the reply to what was asked, and only that reply ends the
/// waiting.
pub proof fn law_waiting_is_for_the_last_request(
    state: State,
    feature: u8,
    function: u8,
    left: u32,
)
    ensures
        state.awaiting(feature, function) == (State {
            want_feature: feature,
            want_function: state.awaiting(feature, function).want_function,
            have_reply: false,
            ..state
        }),
        state.awaiting(feature, function).want_function == function as int % 16,
        state.heard(feature, function) <==> state.have_reply && state.want_feature == feature
            && state.want_function == function as int % 16,
        state.keeps_waiting(feature, function, left) <==> left > 0 && !(state.have_reply
            && state.want_feature == feature && state.want_function == function as int % 16),
        state.probe() is Silent <==> !(state.have_reply && state.want_feature == 0
            && state.want_function == 0),
        state.have_reply && state.want_feature == 0 && state.want_function == 0 ==> state.probe()
            == if state.reply@[4] == 0 {
            Probe::Absent
        } else {
            Probe::Ready(state.reply@[4])
        },
        state.says_diverted(feature) <==> state.have_reply && state.want_feature == feature
            && state.want_function == 2 && state.reply@[6] % 2 == 1,
{
}

/// Whether `m` is the incoming report `report` behind its id: as it came where
/// it starts with that of the long report, else behind the low byte of
/// `report_id`.
pub open spec fn comes_as(report_id: u32, report: Seq<u8>, m: Seq<u8>) -> bool {
    if report.len() > 0 && report[0] == 0x11 {
        m == report
    } else {
        m.len() == report.len() + 1 && m[0] as int == report_id as int % 256 && m.skip(1)
            == report
    }
}

/// Whether `m` is from the keyboard itself, and long enough.
pub open spec fn is_from_keyboard(m: Seq<u8>) -> bool {
    m.len() >= 7 && m[0] == 0x11 && m[1] == 0xFF
}

/// Whether `m` answers the request that `state` awaits a reply to.
pub open spec fn is_awaited(state: State, m: Seq<u8>) -> bool {
    &&& is_from_keyboard(m)
    &&& m[2] == state.want_feature
    &&& m[3] == 16 * state.want_function + 1
    &&& !state.have_reply
}

/// Whether `m` is a notification of the diverting feature that `state` knows,
/// whose first control is `cid`.
pub open spec fn lists(state: State, m: Seq<u8>, cid: int) -> bool {
    &&& is_from_keyboard(m)
    &&& m[2] == state.feature
    &&& m[3] == 0
    &&& 256 * m[4] + m[5] == cid
}

proof fn lemma_comes_as(report_id: u32, report: Seq<u8>, m: Seq<u8>)
    requires
        comes_as(report_id, report, m),
    ensures
        message_bytes(report_id, report) == m,
{
    if report.len() == 0 || report[0] != 0x11 {
        assert forall|i: int| 1 <= i < m.len() implies m[i] == report[i - 1] by {
            assert(m.skip(1)[i - 1] == m[i]);
        }
        assert(message_bytes(report_id, report) =~= m);
    }
}

/// In every state, word that the control went down while it was up posts the
/// configured key, down and then up, with the function-key flag, and nothing
/// else is posted. A verbose daemon says so.
pub proof fn law_press_posts_the_key_down_and_up(
    state: State,
    report_id: u32,
    report: Seq<u8>,
    m: Seq<u8>,
)
    requires
        comes_as(report_id, report, m),
        lists(state, m, state.cfg.cid as int),
        !state.pressed,
    ensures
        ({
            let after = state.reported(report_id, report);
            let key_code = state.cfg.key_code;
            &&& after.state == State { pressed: true, ..state }
            &&& after.next is Done
            &&& after.actions.len() == if state.cfg.verbose {
                3int
            } else {
                2int
            }
            &&& after.actions[0] == Action::PostKey { key_code, down: true, flags: 0x0080_0000 }
            &&& after.actions[1] == Action::PostKey { key_code, down: false, flags: 0x0080_0000 }
            &&& state.cfg.verbose ==> after.actions[2] == Action::Log(Message::KeyPosted)
            &&& state.posting() == after.actions
        }),
{
    lemma_comes_as(report_id, report, m);
}

/// The same two events and the same line make up what is posted, whatever the
/// state is.
pub proof fn law_posting_is_the_same_in_every_state(state: State)
    ensures
        ({
            let actions = state.posting();
            let key_code = state.cfg.key_code;
            &&& actions.len() == if state.cfg.verbose {
                3int
            } else {
                2int
            }
            &&& actions[0] == Action::PostKey { key_code, down: true, flags: 0x0080_0000 }
            &&& actions[1] == Action::PostKey { key_code, down: false, flags: 0x0080_0000 }
            &&& state.cfg.verbose ==> actions[2] == Action::Log(Message::KeyPosted)
        }),
{
}

/// In every state, word that no control is held lets a control that was down
/// come up, and does nothing.
pub proof fn law_release_lets_the_control_up(
    state: State,
    report_id: u32,
    report: Seq<u8>,
    m: Seq<u8>,
)
    requires
        comes_as(report_id, report, m),
        lists(state, m, 0),
        state.pressed,
    ensures
        is_idle(
            state.reported(report_id, report),
            State { pressed: false, ..state },
            Next::Done,
        ),
{
    lemma_comes_as(report_id, report, m);
}

/// In every state, the reply that is awaited is kept, byte for byte, and changes
/// nothing else.
pub proof fn law_awaited_reply_is_kept(
    state: State,
    report_id: u32,
    report: Seq<u8>,
    m: Seq<u8>,
)
    requires
        comes_as(report_id, report, m),
        is_awaited(state, m),
    ensures
        ({
            let after = state.reported(report_id, report);
            &&& is_idle(
                after,
                State { reply: after.state.reply, have_reply: true, ..state },
                Next::Done,
            )
            &&& forall|i: int|
                0 <= i < 20 ==> #[trigger] after.state.reply@[i] == (if i < m.len() {
                    m[i]
                } else {
                    0
                })
        }),
{
    broadcast use lemma_view_report_of;

    lemma_comes_as(report_id, report, m);
}

/// In every state, a report that is neither the awaited reply nor news of the
/// control does nothing at all.
pub proof fn law_other_reports_change_nothing(
    state: State,
    report_id: u32,
    report: Seq<u8>,
    m: Seq<u8>,
)
    requires
        comes_as(report_id, report, m),
        !is_awaited(state, m),
        !(lists(state, m, state.cfg.cid as int) && !state.pressed),
        !(lists(state, m, 0) && state.pressed),
    ensures
        is_idle(state.reported(report_id, report), state, Next::Done),
{
    lemma_comes_as(report_id, report, m);
}

/// A failure is counted, and only the first one is logged. The next attempt is
/// one second away, then two, four, eight, sixteen, and then half a minute,
/// however often attempts have failed.
pub proof fn law_failed_attempt_is_made_again(state: State, why: Failure)
    requires
        state.attempt < u32::MAX,
    ensures
        is_failed(state.failed(why), state, why),
        state.failed(why).actions.last() == Action::ArmRetry(seconds_after(state.attempt)),
{
    lemma2_to64();
    if state.attempt > 5 {
        lemma_pow2_strictly_increases(5, state.attempt as nat);
    }
    let armed = Action::ArmRetry(seconds_after(state.attempt));
    assert(state.failed(why).actions.last() == armed);
    assert(state.failed(why).actions =~= if state.attempt == 0 {
        seq![Action::Log(Message::Retrying(why)), armed]
    } else {
        seq![armed]
    });
}

/// Whether `outcome` starts an attempt at the keyboard of `state`, behind
/// `before`: nothing is done where none is held, one that is not open is to be
/// opened, and an open one is asked where the feature is.
pub open spec fn is_brought_up(outcome: Outcome, state: State, before: Seq<Action>) -> bool {
    match state.device {
        None => {
            &&& outcome.state == state
            &&& outcome.actions == before
            &&& outcome.next is Done
        },
        Some(device) => if !state.opened {
            &&& outcome.state == state
            &&& outcome.actions == before
            &&& outcome.next == Next::Open(device)
        } else {
            is_asked(outcome, state, before)
        },
    }
}

/// Whether `outcome` asks the keyboard of `state` where the feature is, behind
/// `before`, and waits for the reply for a hundred pumps.
pub open spec fn is_asked(outcome: Outcome, state: State, before: Seq<Action>) -> bool {
    &&& outcome.state == State {
        want_feature: 0,
        want_function: 0,
        have_reply: false,
        ..state
    }
    &&& outcome.actions.len() == before.len() + 1
    &&& outcome.actions.drop_last() == before
    &&& sends(outcome.actions.last(), state.device, probe_head())
    &&& outcome.next == Next::Pump(Wait::Probe { begun: state.detaches, left: 99 })
}

proof fn lemma_asked(state: State, before: Seq<Action>)
    ensures
        is_asked(state.probing(before), state, before),
{
    law_requests_have_these_bytes(state, 0, 0, seq![], 0x1B04);
    assert(state.probing(before).actions.drop_last() =~= before);
}

/// An attempt always starts the same way, and so does the one that the retry
/// timer calls for: a keyboard that is held and not open is to be opened, and an
/// open one is asked where the feature is.
pub proof fn law_attempts_start_alike(state: State, before: Seq<Action>)
    ensures
        is_brought_up(state.bringing_up(before), state, before),
        is_brought_up(state.retry_due(), state, seq![Action::ParkRetry]),
{
    lemma_asked(state, before);
    lemma_asked(state, seq![Action::ParkRetry]);
}

/// Whenever a keyboard is held and not open, the retry timer has it opened,
/// however often that has failed.
pub proof fn law_retry_opens_the_keyboard(state: State, device: usize)
    requires
        state.device == Some(device),
        !state.opened,
    ensures
        state.retry_due().next == Next::Open(device),
        state.retry_due().actions == seq![Action::ParkRetry],
        state.retry_due().state == state,
        state.bringing_up(seq![]).next == Next::Open(device),
{
}

/// A keyboard that is attached where none is held is taken and opened, and one
/// that is attached beside another changes nothing.
pub proof fn law_attached_keyboard_is_taken(state: State, device: Option<usize>)
    ensures
        state.device is Some ==> is_idle(state.attached(device), state, Next::Done),
        state.device is None ==> {
            &&& state.attached(device).state == State {
                device,
                opened: false,
                attempt: 0,
                ..state
            }
            &&& state.attached(device).actions == seq![Action::Log(Message::Attached)]
            &&& device is None ==> state.attached(device).next is Done
            &&& device matches Some(d) ==> state.attached(device).next == Next::Open(d)
        },
{
}

/// A detach forgets the keyboard, its index, its key and its failures, parks the
/// timer, and is counted, from zero again where 64 bits are used up.
pub proof fn law_detached_keyboard_is_forgotten(state: State)
    ensures
        ({
            let after = state.detached();
            &&& after.state == State {
                device: None,
                feature: 0,
                pressed: false,
                opened: false,
                attempt: 0,
                detaches: after.state.detaches,
                ..state
            }
            &&& after.state.detaches == (state.detaches + 1) % 0x1_0000_0000_0000_0000
            &&& after.state.detaches == count_behind(state.detaches)
            &&& after.actions == seq![Action::Log(Message::Detached), Action::ParkRetry]
            &&& after.next is Done
        }),
{
}

/// A keyboard that opens is listened to and asked where the feature is. One that
/// nobody has granted is let go. Any other code is a failure.
pub proof fn law_opening_goes_by_the_code(state: State, device: usize, code: i32)
    ensures
        code == 0 ==> is_asked(
            state.opened_with(device, code),
            State { opened: true, ..state },
            seq![Action::Listen(device)],
        ),
        code == -536_870_174 ==> {
            &&& state.opened_with(device, code).state == State { device: None, ..state }
            &&& state.opened_with(device, code).actions == seq![Action::Log(Message::NotPermitted)]
            &&& state.opened_with(device, code).next is Done
        },
        code != 0 && code != -536_870_174 && state.attempt < u32::MAX ==> is_failed(
            state.opened_with(device, code),
            state,
            Failure::CannotOpen(code),
        ),
        open_failure(code) == if code == 0 || code == -536_870_174 {
            None
        } else {
            Some(Failure::CannotOpen(code))
        },
{
    lemma_asked(State { opened: true, ..state }, seq![Action::Listen(device)]);
    if state.attempt < u32::MAX {
        law_failed_attempt_is_made_again(state, Failure::CannotOpen(code));
    }
}

/// At every attempt, whatever index was known before, an index that the keyboard
/// names is taken, and the keyboard is told under it to divert the control: that
/// one request, and nothing else. Forty rounds of asking follow.
pub proof fn law_named_index_is_diverted_under(state: State, begun: u64, left: u32)
    requires
        state.device is None || state.detaches == begun,
        state.have_reply,
        state.want_feature == 0,
        state.want_function == 0,
        state.reply@[4] != 0,
    ensures
        ({
            let after = state.pumped(Wait::Probe { begun, left });
            let feature = state.reply@[4];
            &&& after.state == State { feature, ..state }
            &&& after.actions.len() == 1
            &&& sends(after.actions[0], state.device, divert_head(feature, state.cfg.cid, 0x03))
            &&& after.next == Next::Pump(Wait::Settle { begun, rounds: 39 })
        }),
{
    law_requests_have_these_bytes(State { feature: state.reply@[4], ..state }, 0, 0, seq![], 0);
}

/// A keyboard that names no index has no such feature, which is said and is the
/// end of it.
pub proof fn law_unnamed_index_ends_the_attempt(state: State, begun: u64, left: u32)
    requires
        state.device is None || state.detaches == begun,
        state.have_reply,
        state.want_feature == 0,
        state.want_function == 0,
        state.reply@[4] == 0,
    ensures
        state.pumped(Wait::Probe { begun, left }).state == state,
        state.pumped(Wait::Probe { begun, left }).actions == seq![Action::Log(Message::NoFeature)],
        state.pumped(Wait::Probe { begun, left }).next is Done,
{
}

/// As long as the keyboard has not named the index it is waited for, one pump at
/// a time, and when none is left the attempt has failed.
pub proof fn law_index_is_waited_for(state: State, begun: u64, left: u32)
    requires
        state.device is Some,
        state.detaches == begun,
        !(state.have_reply && state.want_feature == 0 && state.want_function == 0),
    ensures
        left > 0 ==> is_idle(
            state.pumped(Wait::Probe { begun, left }),
            state,
            Next::Pump(Wait::Probe { begun, left: (left - 1) as u32 }),
        ),
        left == 0 && state.attempt < u32::MAX ==> is_failed(
            state.pumped(Wait::Probe { begun, left }),
            state,
            Failure::NoAnswer,
        ),
{
    if state.attempt < u32::MAX {
        law_failed_attempt_is_made_again(state, Failure::NoAnswer);
    }
}

/// An attempt whose keyboard was replaced, or went away before it had named the
/// index, just ends.
pub proof fn law_lost_attempt_just_ends(state: State, begun: u64, rounds: u32, left: u32)
    ensures
        state.device is Some && state.detaches != begun ==> is_idle(
            state.pumped(Wait::Probe { begun, left }),
            state,
            Next::Done,
        ),
        state.device is None && !(state.have_reply && state.want_feature == 0
            && state.want_function == 0) ==> is_idle(
            state.pumped(Wait::Probe { begun, left }),
            state,
            Next::Done,
        ),
        state.device is None || state.detaches != begun ==> {
            &&& is_idle(state.pumped(Wait::Settle { begun, rounds }), state, Next::Done)
            &&& is_idle(state.pumped(Wait::Confirm { begun, rounds, left }), state, Next::Done)
        },
        state.has_lost(begun) <==> state.device is None || state.detaches != begun,
{
}

/// Whether `outcome` asks the keyboard of `state` whether the control is
/// diverted, with that one request, and then waits as `wait` says.
pub open spec fn is_queried(outcome: Outcome, state: State, wait: Wait) -> bool {
    &&& outcome.state == State {
        want_feature: state.feature,
        want_function: 2,
        have_reply: false,
        ..state
    }
    &&& outcome.actions.len() == 1
    &&& sends(outcome.actions[0], state.device, query_head(state.feature, state.cfg.cid))
    &&& outcome.next == Next::Pump(wait)
}

/// One pump after the request to divert, and in every round behind it, the
/// keyboard is asked whether it does, and so it is on the way out, in every
/// state. The reply is waited for for a hundred pumps.
pub proof fn law_keyboard_is_asked_in_every_round(state: State, begun: u64, rounds: u32)
    ensures
        state.device is Some && state.detaches == begun ==> is_queried(
            state.pumped(Wait::Settle { begun, rounds }),
            state,
            Wait::Confirm { begun, rounds, left: 99 },
        ),
        is_queried(
            state.pumped(Wait::Clear { rounds }),
            state,
            Wait::Check { rounds, left: 99 },
        ),
{
    law_requests_have_these_bytes(state, 0, 0, seq![], 0);
}

/// Word that the control is diverted ends the attempt in success: the log names
/// the failures before it, which are forgotten, and the timer is parked. Any
/// other word starts the next round, and after the last one the attempt has
/// failed, as it has where no word comes at all.
pub proof fn law_success_goes_by_the_word(state: State, begun: u64, rounds: u32, left: u32)
    requires
        state.device is Some,
        state.detaches == begun,
    ensures
        ({
            let after = state.pumped(Wait::Confirm { begun, rounds, left });
            let told = state.have_reply && state.want_feature == state.feature
                && state.want_function == 2;
            &&& !told && left > 0 ==> is_idle(
                after,
                state,
                Next::Pump(Wait::Confirm { begun, rounds, left: (left - 1) as u32 }),
            )
            &&& told && state.reply@[6] % 2 == 1 ==> {
                &&& after.state == State { attempt: 0, ..state }
                &&& after.actions == seq![
                    Action::Log(Message::Diverted(state.attempt)),
                    Action::ParkRetry,
                ]
                &&& after.next is Done
            }
            &&& (told && state.reply@[6] % 2 == 0 || !told && left == 0) ==> {
                &&& rounds > 0 ==> is_idle(
                    after,
                    state,
                    Next::Pump(Wait::Settle { begun, rounds: (rounds - 1) as u32 }),
                )
                &&& rounds == 0 && state.attempt < u32::MAX ==> is_failed(after, state, Failure::NotConfirmed)
            }
        }),
{
    if state.attempt < u32::MAX {
        law_failed_attempt_is_made_again(state, Failure::NotConfirmed);
    }
}

/// On the way out a keyboard is told to divert the control no longer where it is
/// held and its index is known, and is left alone else.
pub proof fn law_shutdown_lets_the_control_go(state: State)
    ensures
        state.device is None || state.feature == 0 ==> is_idle(
            state.shutting_down(),
            state,
            Next::Done,
        ),
        state.device is Some && state.feature != 0 ==> {
            let after = state.shutting_down();
            &&& after.state == state
            &&& after.actions.len() == 2
            &&& after.actions[0] == Action::ParkRetry
            &&& sends(
                after.actions[1],
                state.device,
                divert_head(state.feature, state.cfg.cid, 0x02),
            )
            &&& after.next == Next::Pump(Wait::Clear { rounds: 19 })
        },
{
    law_requests_have_these_bytes(state, 0, 0, seq![], 0);
}

/// On the way out the keyboard is asked again only where it says that the control
/// is still diverted and a round is left. Else it is closed, and the log says so.
pub proof fn law_shutdown_goes_by_the_word(state: State, rounds: u32, left: u32)
    ensures
        ({
            let after = state.pumped(Wait::Check { rounds, left });
            let told = state.have_reply && state.want_function == 2;
            &&& !told && left > 0 ==> is_idle(
                after,
                state,
                Next::Pump(Wait::Check { rounds, left: (left - 1) as u32 }),
            )
            &&& told && state.reply@[6] % 2 == 1 && rounds > 0 ==> is_idle(
                after,
                state,
                Next::Pump(Wait::Clear { rounds: (rounds - 1) as u32 }),
            )
            &&& (told && (state.reply@[6] % 2 == 0 || rounds == 0) || !told && left == 0) ==> {
                &&& after.state == state
                &&& after.actions == seq![
                    Action::Close(state.device),
                    Action::Log(Message::DivertCleared),
                ]
                &&& after.next is Done
            }
        }),
{
}

/// An attempt fails at a pump just where its keyboard is held, no pump is left
/// for the reply, or the reply denies the divert in the last round.
pub proof fn law_pumps_fail_just_here(state: State, wait: Wait)
    ensures
        wait matches Wait::Probe { begun, left } ==> state.wait_failure(wait) == if state.device
            is Some && state.detaches == begun && left == 0 && !(state.have_reply
            && state.want_feature == 0 && state.want_function == 0) {
            Some(Failure::NoAnswer)
        } else {
            None
        },
        wait matches Wait::Confirm { begun, rounds, left } ==> {
            let told = state.have_reply && state.want_feature == state.feature
                && state.want_function == 2;
            state.wait_failure(wait) == if state.device is Some && state.detaches == begun
                && rounds == 0 && (told && state.reply@[6] % 2 == 0 || !told && left == 0) {
                Some(Failure::NotConfirmed)
            } else {
                None
            }
        },
        wait is Settle || wait is Clear || wait is Check ==> state.wait_failure(wait) is None,
{
}

/// `outcome`, with the ids of the keyboard that is looked for left out.
pub open spec fn without_ids(outcome: Outcome) -> Outcome {
    let cfg = Config { vendor_id: 0, product_id: 0, ..outcome.state.cfg };
    Outcome { state: State { cfg, ..outcome.state }, ..outcome }
}

/// Which keyboard is looked for changes nothing about how one that was found is
/// dealt with.
pub proof fn law_ids_of_the_keyboard_do_not_matter(
    state: State,
    event: Event,
    vendor_id: i32,
    product_id: i32,
)
    ensures
        ({
            let other = State { cfg: Config { vendor_id, product_id, ..state.cfg }, ..state };
            without_ids(other.after(event)) == without_ids(state.after(event))
        }),
{
    let other = State { cfg: Config { vendor_id, product_id, ..state.cfg }, ..state };
    match event {
        Event::Reported(id, report) => {
            assert(without_ids(other.reported(id, report)) == without_ids(
                state.reported(id, report),
            ));
        },
        Event::Pumped(wait) => lemma_ids_do_not_matter_at_a_pump(state, other, wait),
        _ => {
            assert(without_ids(other.after(event)) == without_ids(state.after(event)));
        },
    }
}

proof fn lemma_ids_do_not_matter_at_a_pump(state: State, other: State, wait: Wait)
    requires
        other == (State {
            cfg: Config {
                vendor_id: other.cfg.vendor_id,
                product_id: other.cfg.product_id,
                ..state.cfg
            },
            ..state
        }),
    ensures
        without_ids(other.pumped(wait)) == without_ids(state.pumped(wait)),
{
}

/// How often attempts have failed changes nothing but the delay of the next one
/// and the line that a failure or a success is worth.
pub proof fn law_count_of_failures_decides_nothing(state: State, event: Event, attempt: u32)
    ensures
        ({
            let (one, two) = (state.after(event), State { attempt, ..state }.after(event));
            &&& two.next == one.next
            &&& two.state == State { attempt: two.state.attempt, ..one.state }
            &&& state.failure(event) is None && !(event matches Event::Pumped(wait) && wait
                is Confirm) ==> two.actions == one.actions
        }),
{
    let other = State { attempt, ..state };
    match event {
        Event::Reported(id, report) => {
            assert(other.reported(id, report).state == State {
                attempt,
                ..state.reported(id, report).state
            });
        },
        Event::Pumped(wait) => lemma_failures_decide_nothing_at_a_pump(state, wait, attempt),
        _ => {},
    }
}

proof fn lemma_failures_decide_nothing_at_a_pump(state: State, wait: Wait, attempt: u32)
    ensures
        ({
            let (one, two) = (state.pumped(wait), State { attempt, ..state }.pumped(wait));
            &&& two.next == one.next
            &&& two.state == State { attempt: two.state.attempt, ..one.state }
            &&& state.wait_failure(wait) is None && !(wait is Confirm) ==> two.actions
                == one.actions
        }),
{
}

/// How often a keyboard was detached only tells an attempt whether its own one
/// was.
pub proof fn law_count_of_detaches_decides_nothing_else(
    state: State,
    event: Event,
    detaches: u64,
)
    requires
        !(event is Pumped),
    ensures
        ({
            let (one, two) = (state.after(event), State { detaches, ..state }.after(event));
            &&& two.actions == one.actions
            &&& two.state == State { detaches: two.state.detaches, ..one.state }
            &&& one.next is Pump <==> two.next is Pump
            &&& one.next !is Pump ==> two.next == one.next
        }),
{
}

} // verus!
