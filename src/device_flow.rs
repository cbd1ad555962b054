//! The device-flow sign-in as a state machine: each event that the host
//! reports (a reply, a failure, a cancellation) gives the next state and the
//! one action that the host performs next.
use vstd::prelude::*;
use crate::errors::AuthError;

verus! {

/// The answer of the device-code endpoint.
#[derive(Debug, Clone)]
pub struct DeviceCode {
    pub device_code: String,
    pub user_code: String,
    pub verification_uri: String,
    pub expires_in: i32,
    pub interval: i32,
}

/// The answer of the token endpoint to one probe.
#[derive(Debug, Clone)]
pub struct TokenReply {
    pub access_token: Option<String>,
    pub error: Option<String>,
}

/// Where a sign-in stands.
#[derive(Debug)]
pub enum FlowState {
    Idle,
    CodeRequested,
    /// The code is shown to the user; `max_probes` bounds the polling.
    AwaitingUserAction { device_code: String, interval: u64, max_probes: u64 },
    /// `probes` probes have been issued so far.
    Polling { device_code: String, interval: u64, max_probes: u64, probes: u64 },
    /// A token came back and is being written to the token store.
    Storing { token: String },
    Authenticated { token: String },
    Failed { error: AuthError },
    TimedOut,
    Cancelled,
}

/// What the host reports to the machine.
#[derive(Debug)]
pub enum FlowEvent {
    /// The user asks to sign in.
    Start,
    /// The device-code endpoint answered.
    CodeIssued(DeviceCode),
    /// The code was shown and the browser opening attempted, whatever came of it.
    CodeShown,
    /// The token endpoint answered a probe.
    Reply(TokenReply),
    /// A request failed in transport.
    TransportFailed(String),
    /// An answer could not be decoded.
    DecodeFailed(String),
    /// The token store reported on the write.
    Stored(Result<(), String>),
    /// The host gave up on the sign-in.
    Cancel,
}

/// What the host does next.
#[derive(Debug)]
pub enum FlowAction {
    /// Ask the device-code endpoint for a code.
    RequestCode,
    /// Show the user code and open the verification page.
    ShowCode { user_code: String, verification_uri: String },
    /// Wait `wait_secs` seconds, then ask the token endpoint for the token.
    Probe { device_code: String, wait_secs: u64 },
    /// Write the token to the token store.
    Store { token: String },
    /// The sign-in is over, with the token or the error.
    Finish(Result<String, AuthError>),
    /// The event was refused; the state is unchanged.
    Reject(AuthError),
    /// Nothing to do.
    Nothing,
}

/// The token endpoint's answers on which polling goes on.
pub open spec fn is_retryable(e: Seq<char>) -> bool {
    e == "authorization_pending"@ || e == "slow_down"@
}

/// How many probes a code allows: its lifetime divided by the polling
/// interval, rounded down.
pub open spec fn max_probes_of(d: DeviceCode) -> int
    recommends
        d.interval > 0,
{
    if d.expires_in <= 0 {
        0
    } else {
        d.expires_in as int / d.interval as int
    }
}

/// A sign-in is under way.
pub open spec fn is_active(s: FlowState) -> bool {
    s is CodeRequested || s is AwaitingUserAction || s is Polling || s is Storing
}

/// The sign-in ends in failure with `err`.
pub open spec fn fails_with(t: FlowState, a: FlowAction, err: AuthError) -> bool {
    t == (FlowState::Failed { error: err }) && a == FlowAction::Finish(Err(err))
}

/// The sign-in ends in failure with a decoding error whose text is `msg`.
pub open spec fn fails_with_protocol(t: FlowState, a: FlowAction, msg: Seq<char>) -> bool {
    &&& t matches FlowState::Failed { error: AuthError::Protocol(_) }
    &&& t->error->Protocol_0@ == msg
    &&& a == FlowAction::Finish(Err(t->error))
}

/// The sign-in ends because the code's probes are used up.
pub open spec fn times_out(t: FlowState, a: FlowAction) -> bool {
    &&& t == FlowState::TimedOut
    &&& a == FlowAction::Finish(Err(AuthError::TimedOut))
}

pub open spec fn invalid_interval_message() -> Seq<char> {
    "the polling interval is not positive"@
}

pub open spec fn empty_reply_message() -> Seq<char> {
    "the token reply holds neither a token nor an error"@
}

/// The step from `s` on event `e` to state `t` with action `a`.
pub open spec fn step_spec(s: FlowState, e: FlowEvent, t: FlowState, a: FlowAction) -> bool {
    let unchanged = t == s && a == FlowAction::Nothing;
    match e {
        FlowEvent::Start => if is_active(s) {
            t == s && a == FlowAction::Reject(AuthError::Conflict)
        } else {
            t == FlowState::CodeRequested && a == FlowAction::RequestCode
        },
        FlowEvent::Cancel => if is_active(s) {
            t == FlowState::Cancelled && a == FlowAction::Nothing
        } else {
            unchanged
        },
        FlowEvent::TransportFailed(m) => if s is CodeRequested || s is Polling {
            fails_with(t, a, AuthError::Network(m))
        } else {
            unchanged
        },
        FlowEvent::DecodeFailed(m) => if s is CodeRequested || s is Polling {
            fails_with(t, a, AuthError::Protocol(m))
        } else {
            unchanged
        },
        FlowEvent::CodeIssued(d) => if !(s is CodeRequested) {
            unchanged
        } else if d.interval > 0 {
            &&& t == (FlowState::AwaitingUserAction {
                device_code: d.device_code,
                interval: d.interval as u64,
                max_probes: max_probes_of(d) as u64,
            })
            &&& a == (FlowAction::ShowCode {
                user_code: d.user_code,
                verification_uri: d.verification_uri,
            })
        } else {
            fails_with_protocol(t, a, invalid_interval_message())
        },
        FlowEvent::CodeShown => match s {
            FlowState::AwaitingUserAction { device_code, interval, max_probes } => if max_probes
                > 0 {
                &&& t == (FlowState::Polling { device_code, interval, max_probes, probes: 1 })
                &&& a == (FlowAction::Probe { device_code, wait_secs: interval })
            } else {
                times_out(t, a)
            },
            _ => unchanged,
        },
        FlowEvent::Reply(r) => match s {
            FlowState::Polling { device_code, interval, max_probes, probes } => {
                if r.access_token is Some {
                    let token = r.access_token->Some_0;
                    t == (FlowState::Storing { token }) && a == (FlowAction::Store { token })
                } else if r.error is None {
                    fails_with_protocol(t, a, empty_reply_message())
                } else if !is_retryable(r.error->Some_0@) {
                    fails_with(t, a, AuthError::OAuth(r.error->Some_0))
                } else if probes < max_probes {
                    &&& t == (FlowState::Polling {
                        device_code,
                        interval,
                        max_probes,
                        probes: (probes + 1) as u64,
                    })
                    &&& a == (FlowAction::Probe { device_code, wait_secs: interval })
                } else {
                    times_out(t, a)
                }
            },
            _ => unchanged,
        },
        FlowEvent::Stored(res) => match s {
            FlowState::Storing { token } => match res {
                Ok(_) => t == (FlowState::Authenticated { token }) && a == FlowAction::Finish(
                    Ok(token),
                ),
                Err(m) => fails_with(t, a, AuthError::Storage(m)),
            },
            _ => unchanged,
        },
    }
}

/// The probe bound of the code under way, where there is one.
pub open spec fn session_max(s: FlowState) -> int {
    match s {
        FlowState::AwaitingUserAction { max_probes, .. } => max_probes as int,
        FlowState::Polling { max_probes, .. } => max_probes as int,
        _ => 0,
    }
}

/// The probes issued so far under the code under way.
pub open spec fn session_probes(s: FlowState) -> int {
    match s {
        FlowState::Polling { probes, .. } => probes as int,
        _ => 0,
    }
}

/// How many probes a sequence of actions holds.
pub open spec fn probe_count(actions: Seq<FlowAction>) -> nat
    decreases actions.len(),
{
    if actions.len() == 0 {
        0
    } else {
        probe_count(actions.drop_last()) + if actions.last() is Probe {
            1nat
        } else {
            0nat
        }
    }
}

/// `states[i]` steps on `events[i]` to `states[i + 1]` with `actions[i]`.
#[verifier::opaque]
pub open spec fn is_run(
    states: Seq<FlowState>,
    events: Seq<FlowEvent>,
    actions: Seq<FlowAction>,
) -> bool {
    &&& states.len() == events.len() + 1
    &&& actions.len() == events.len()
    &&& forall|i: int|
        0 <= i < events.len() ==> step_spec(#[trigger] states[i], events[i], states[i + 1], actions[i])
}

/// The sign-in is over: nothing but a new start leads back to polling.
pub open spec fn is_over(s: FlowState) -> bool {
    s is Storing || s is Authenticated || s is Failed || s is TimedOut || s is Cancelled
}

/// A reply that says the authorization is pending, or to slow down.
pub open spec fn is_pending_reply(e: FlowEvent) -> bool {
    &&& e is Reply
    &&& e->Reply_0.access_token is None
    &&& e->Reply_0.error is Some
    &&& is_retryable(e->Reply_0.error->Some_0@)
}

proof fn lemma_session_step(s: FlowState, e: FlowEvent, t: FlowState, a: FlowAction)
    requires
        s is AwaitingUserAction || s is Polling,
        s is Polling ==> session_probes(s) <= session_max(s),
        step_spec(s, e, t, a),
    ensures
        t is AwaitingUserAction ==> s is AwaitingUserAction && session_max(t) == session_max(s),
        t is Polling ==> session_max(t) == session_max(s) && session_probes(t) <= session_max(t)
            && session_probes(t) == session_probes(s) + if a is Probe {
            1int
        } else {
            0int
        },
        !(t is AwaitingUserAction) && !(t is Polling) ==> !(a is Probe) && is_over(t),
        t is AwaitingUserAction ==> !(a is Probe),
{
    match e {
        FlowEvent::Reply(r) => {},
        FlowEvent::CodeShown => {},
        _ => {},
    }
}

proof fn lemma_over_step(s: FlowState, e: FlowEvent, t: FlowState, a: FlowAction)
    requires
        is_over(s),
        !(e is Start),
        step_spec(s, e, t, a),
    ensures
        is_over(t),
        !(a is Probe),
        !(a is Store),
{
}

/// How many store actions a sequence of actions holds.
pub open spec fn store_count(actions: Seq<FlowAction>) -> nat
    decreases actions.len(),
{
    if actions.len() == 0 {
        0
    } else {
        store_count(actions.drop_last()) + if actions.last() is Store {
            1nat
        } else {
            0nat
        }
    }
}

proof fn lemma_store_count(
    states: Seq<FlowState>,
    events: Seq<FlowEvent>,
    actions: Seq<FlowAction>,
    k: int,
)
    requires
        is_run(states, events, actions),
        0 <= k <= events.len(),
        states[0] is CodeRequested,
        forall|i: int| 0 <= i < events.len() ==> !(#[trigger] events[i] is Start),
    ensures
        store_count(actions.take(k)) <= 1,
        is_over(states[k]) || states[k] is CodeRequested || states[k] is AwaitingUserAction
            || states[k] is Polling,
        !is_over(states[k]) ==> store_count(actions.take(k)) == 0,
    decreases k,
{
    assert(states.len() == events.len() + 1 && actions.len() == events.len()) by {
        reveal(is_run);
    }
    if k == 0 {
        assert(actions.take(0).len() == 0);
    } else {
        lemma_store_count(states, events, actions, k - 1);
        assert(step_spec(states[k - 1], events[k - 1], states[k], actions[k - 1])) by {
            reveal(is_run);
        }
        assert(!(events[k - 1] is Start));
        if is_over(states[k - 1]) {
            lemma_over_step(states[k - 1], events[k - 1], states[k], actions[k - 1]);
        }
        assert(actions.take(k).drop_last() == actions.take(k - 1));
        assert(actions.take(k).last() == actions[k - 1]);
    }
}

/// One sign-in asks the token store to write at most once: on any run
/// from a requested code in which the user does not start another sign-in.
pub proof fn lemma_stored_at_most_once(
    states: Seq<FlowState>,
    events: Seq<FlowEvent>,
    actions: Seq<FlowAction>,
)
    requires
        is_run(states, events, actions),
        states[0] is CodeRequested,
        forall|i: int| 0 <= i < events.len() ==> !(#[trigger] events[i] is Start),
    ensures
        store_count(actions) <= 1,
{
    assert(states.len() == events.len() + 1 && actions.len() == events.len()) by {
        reveal(is_run);
    }
    lemma_store_count(states, events, actions, events.len() as int);
    assert(actions.take(events.len() as int) == actions);
}

proof fn lemma_sign_in_count(
    states: Seq<FlowState>,
    events: Seq<FlowEvent>,
    actions: Seq<FlowAction>,
    m: int,
    k: int,
)
    requires
        is_run(states, events, actions),
        1 <= k <= events.len(),
        states[1] is AwaitingUserAction,
        session_max(states[1]) == m,
        actions[0] is ShowCode,
        forall|i: int| 1 <= i < events.len() ==> !(#[trigger] events[i] is Start),
    ensures
        probe_count(actions.take(k)) <= m,
        states[k] is AwaitingUserAction || states[k] is Polling || is_over(states[k]),
        states[k] is AwaitingUserAction ==> session_max(states[k]) == m && probe_count(
            actions.take(k),
        ) == 0,
        states[k] is Polling ==> session_max(states[k]) == m && session_probes(states[k])
            == probe_count(actions.take(k)) && session_probes(states[k]) <= m,
    decreases k,
{
    assert(states.len() == events.len() + 1 && actions.len() == events.len()) by {
        reveal(is_run);
    }
    if k == 1 {
        assert(actions.take(1).drop_last() == actions.take(0));
    } else {
        lemma_sign_in_count(states, events, actions, m, k - 1);
        assert(step_spec(states[k - 1], events[k - 1], states[k], actions[k - 1])) by {
            reveal(is_run);
        }
        assert(!(events[k - 1] is Start));
        if is_over(states[k - 1]) {
            lemma_over_step(states[k - 1], events[k - 1], states[k], actions[k - 1]);
        } else {
            lemma_session_step(states[k - 1], events[k - 1], states[k], actions[k - 1]);
        }
        assert(actions.take(k).drop_last() == actions.take(k - 1));
        assert(actions.take(k).last() == actions[k - 1]);
    }
}

/// Whatever the replies, one sign-in probes a device code with a positive
/// interval at most its lifetime divided by its interval times, rounded
/// down: on any run that starts with the code being issued and in which
/// the user does not start another sign-in.
pub proof fn lemma_probe_bound(
    states: Seq<FlowState>,
    events: Seq<FlowEvent>,
    actions: Seq<FlowAction>,
    d: DeviceCode,
)
    requires
        is_run(states, events, actions),
        events.len() >= 1,
        states[0] is CodeRequested,
        events[0] == FlowEvent::CodeIssued(d),
        d.interval > 0,
        forall|i: int| 1 <= i < events.len() ==> !(#[trigger] events[i] is Start),
    ensures
        probe_count(actions) <= max_probes_of(d),
{
    assert(step_spec(states[0], events[0], states[1], actions[0])) by {
        reveal(is_run);
    }
    assert(states.len() == events.len() + 1 && actions.len() == events.len()) by {
        reveal(is_run);
    }
    lemma_sign_in_count(states, events, actions, max_probes_of(d), events.len() as int);
    assert(actions.take(events.len() as int) == actions);
}

proof fn lemma_pending_prefix(
    states: Seq<FlowState>,
    events: Seq<FlowEvent>,
    actions: Seq<FlowAction>,
    m: int,
    k: int,
)
    requires
        is_run(states, events, actions),
        events.len() == m + 2,
        m >= 1,
        2 <= k <= m + 1,
        states[1] is AwaitingUserAction,
        session_max(states[1]) == m,
        actions[0] is ShowCode,
        events[1] == FlowEvent::CodeShown,
        forall|i: int| 2 <= i < events.len() ==> is_pending_reply(#[trigger] events[i]),
    ensures
        states[k] is Polling,
        session_max(states[k]) == m,
        session_probes(states[k]) == k - 1,
        probe_count(actions.take(k)) == k - 1,
    decreases k,
{
    assert(states.len() == events.len() + 1 && actions.len() == events.len()) by {
        reveal(is_run);
    }
    assert(step_spec(states[k - 1], events[k - 1], states[k], actions[k - 1])) by {
        reveal(is_run);
    }
    assert(actions.take(k).drop_last() == actions.take(k - 1));
    assert(actions.take(k).last() == actions[k - 1]);
    if k == 2 {
        assert(actions.take(1).drop_last() == actions.take(0));
        assert(actions.take(1).last() == actions[0]);
        assert(actions.take(0).len() == 0);
        assert(actions.take(1).len() == 1);
        assert(probe_count(actions.take(0)) == 0);
        assert(actions[0] is ShowCode);
        assert(!(actions.take(1).last() is Probe));
        assert(probe_count(actions.take(1)) == 0);
    } else {
        lemma_pending_prefix(states, events, actions, m, k - 1);
        assert(is_pending_reply(events[k - 1]));
    }
}

/// Where every reply says the authorization is pending, a code with a
/// positive interval is probed exactly its lifetime divided by its interval
/// times, rounded down, and the sign-in then times out without storing.
pub proof fn lemma_all_pending_times_out(
    states: Seq<FlowState>,
    events: Seq<FlowEvent>,
    actions: Seq<FlowAction>,
    d: DeviceCode,
)
    requires
        is_run(states, events, actions),
        states[0] is CodeRequested,
        events.len() == max_probes_of(d) + 2,
        events[0] == FlowEvent::CodeIssued(d),
        d.interval > 0,
        events[1] == FlowEvent::CodeShown,
        forall|i: int| 2 <= i < events.len() ==> is_pending_reply(#[trigger] events[i]),
    ensures
        probe_count(actions) == max_probes_of(d),
        states.last() == FlowState::TimedOut,
        actions.last() == FlowAction::Finish(Err(AuthError::TimedOut)),
        forall|i: int| 0 <= i < actions.len() ==> !(#[trigger] actions[i] is Store),
{
    let m = max_probes_of(d);
    let n = events.len() as int;
    assert(states.len() == events.len() + 1 && actions.len() == events.len()) by {
        reveal(is_run);
    }
    assert(step_spec(states[0], events[0], states[1], actions[0])) by {
        reveal(is_run);
    }
    assert(step_spec(states[n - 1], events[n - 1], states[n], actions[n - 1])) by {
        reveal(is_run);
    }
    assert(actions.take(n) == actions);
    assert(actions.take(n).drop_last() == actions.take(n - 1));
    assert(actions.take(n).last() == actions[n - 1]);
    if m == 0 {
        assert(actions.take(1).drop_last() == actions.take(0));
        assert(actions.take(1).last() == actions[0]);
        assert(actions.take(0).len() == 0);
        assert(actions.take(1).len() == 1);
        assert(probe_count(actions.take(0)) == 0);
        assert(actions[0] is ShowCode);
        assert(!(actions.take(1).last() is Probe));
        assert(probe_count(actions.take(1)) == 0);
    } else {
        lemma_pending_prefix(states, events, actions, m, n - 1);
        assert(is_pending_reply(events[n - 1]));
        assert(session_probes(states[n - 1]) >= session_max(states[n - 1]));
        assert(times_out(states[n], actions[n - 1]));
    }
    assert(probe_count(actions.take(n - 1)) == m);
    assert forall|i: int| 0 <= i < actions.len() implies !(#[trigger] actions[i] is Store) by {
        assert(step_spec(states[i], events[i], states[i + 1], actions[i])) by {
            reveal(is_run);
        }
        if i >= 2 {
            assert(is_pending_reply(events[i]));
        }
    }
}

/// A reply that says the authorization is pending, or to slow down, keeps the
/// sign-in polling with one more probe, until the code's probes are used up,
/// when it times out; no token is stored either way.
pub proof fn lemma_pending_keeps_polling(s: FlowState, r: TokenReply, t: FlowState, a: FlowAction)
    requires
        s is Polling,
        r.access_token is None,
        r.error is Some,
        is_retryable(r.error->Some_0@),
        step_spec(s, FlowEvent::Reply(r), t, a),
    ensures
        !(a is Store),
        !(t is Storing) && !(t is Authenticated),
        session_probes(s) < session_max(s) ==> t is Polling && a is Probe && session_probes(t)
            == session_probes(s) + 1 && session_max(t) == session_max(s),
        session_probes(s) >= session_max(s) ==> t is TimedOut,
{
}

/// A reply with a token stores it once and the sign-in ends with it: the
/// store is asked for that token, a successful write finishes with that
/// same token, and from then on no event brings another probe or store.
pub proof fn lemma_token_stored_once(s: FlowState, r: TokenReply, t: FlowState, a: FlowAction)
    requires
        s is Polling,
        r.access_token is Some,
        step_spec(s, FlowEvent::Reply(r), t, a),
    ensures
        t == (FlowState::Storing { token: r.access_token->Some_0 }),
        a == (FlowAction::Store { token: r.access_token->Some_0 }),
        forall|e: FlowEvent, t2: FlowState, a2: FlowAction|
            #[trigger] step_spec(t, e, t2, a2) ==> !(a2 is Probe) && !(a2 is Store) && (e
                == FlowEvent::Stored(Ok(())) ==> t2 == (FlowState::Authenticated {
                token: r.access_token->Some_0,
            }) && a2 == FlowAction::Finish(Ok(r.access_token->Some_0))),
        forall|e: FlowEvent, t2: FlowState, a2: FlowAction|
            #[trigger] step_spec(
                FlowState::Authenticated { token: r.access_token->Some_0 },
                e,
                t2,
                a2,
            ) ==> !(a2 is Probe) && !(a2 is Store),
{
}

/// Any other error code from the token endpoint ends the sign-in in failure
/// with that code, and stores nothing then or on any later event.
pub proof fn lemma_oauth_error_fails(s: FlowState, r: TokenReply, t: FlowState, a: FlowAction)
    requires
        s is Polling,
        r.access_token is None,
        r.error is Some,
        !is_retryable(r.error->Some_0@),
        step_spec(s, FlowEvent::Reply(r), t, a),
    ensures
        t == (FlowState::Failed { error: AuthError::OAuth(r.error->Some_0) }),
        a == FlowAction::Finish(Err(AuthError::OAuth(r.error->Some_0))),
        forall|e: FlowEvent, t2: FlowState, a2: FlowAction|
            #[trigger] step_spec(t, e, t2, a2) ==> !(a2 is Store),
{
}

/// Whether the token endpoint's error code lets polling go on.
pub fn is_retryable_error(e: &String) -> (r: bool)
    ensures
        r == is_retryable(e@),
{
    let pending = "authorization_pending".to_owned();
    let slow_down = "slow_down".to_owned();
    *e == pending || *e == slow_down
}

/// Whether a sign-in is under way in `s`.
pub fn flow_is_active(s: &FlowState) -> (r: bool)
    ensures
        r == is_active(*s),
{
    match s {
        FlowState::CodeRequested => true,
        FlowState::AwaitingUserAction { .. } => true,
        FlowState::Polling { .. } => true,
        FlowState::Storing { .. } => true,
        _ => false,
    }
}

fn fail(err: AuthError, again: AuthError) -> (r: (FlowState, FlowAction))
    requires
        err == again,
    ensures
        fails_with(r.0, r.1, err),
{
    (FlowState::Failed { error: err }, FlowAction::Finish(Err(again)))
}

fn time_out() -> (r: (FlowState, FlowAction))
    ensures
        times_out(r.0, r.1),
{
    (FlowState::TimedOut, FlowAction::Finish(Err(AuthError::TimedOut)))
}

/// Accepts the device-code endpoint's answer: a code with a positive polling
/// interval is shown to the user, any other fails the sign-in.
fn on_code_issued(d: DeviceCode) -> (r: (FlowState, FlowAction))
    ensures
        step_spec(FlowState::CodeRequested, FlowEvent::CodeIssued(d), r.0, r.1),
{
    if d.interval > 0 {
        let max_probes: u64 = if d.expires_in <= 0 {
            0
        } else {
            (d.expires_in as u64) / (d.interval as u64)
        };
        (
            FlowState::AwaitingUserAction {
                device_code: d.device_code,
                interval: d.interval as u64,
                max_probes,
            },
            FlowAction::ShowCode { user_code: d.user_code, verification_uri: d.verification_uri },
        )
    } else {
        let msg = "the polling interval is not positive".to_owned();
        let again = msg.clone();
        fail(AuthError::Protocol(msg), AuthError::Protocol(again))
    }
}

/// Answers one reply of the token endpoint while polling.
fn on_reply(device_code: String, interval: u64, max_probes: u64, probes: u64, r: TokenReply) -> (res:
    (FlowState, FlowAction))
    ensures
        step_spec(
            FlowState::Polling { device_code, interval, max_probes, probes },
            FlowEvent::Reply(r),
            res.0,
            res.1,
        ),
{
    match r.access_token {
        Some(token) => {
            let stored = token.clone();
            (FlowState::Storing { token }, FlowAction::Store { token: stored })
        },
        None => {
            let go_on = match &r.error {
                Some(e) => is_retryable_error(e),
                None => {
                    let msg = "the token reply holds neither a token nor an error".to_owned();
                    let again = msg.clone();
                    return fail(AuthError::Protocol(msg), AuthError::Protocol(again));
                },
            };
            if !go_on {
                let e = r.error.unwrap();
                let again = e.clone();
                fail(AuthError::OAuth(e), AuthError::OAuth(again))
            } else if probes < max_probes {
                let probe_code = device_code.clone();
                (
                    FlowState::Polling { device_code, interval, max_probes, probes: probes + 1 },
                    FlowAction::Probe { device_code: probe_code, wait_secs: interval },
                )
            } else {
                time_out()
            }
        },
    }
}

/// The next state and action of a sign-in in state `state` on `event`.
pub fn step(state: FlowState, event: FlowEvent) -> (r: (FlowState, FlowAction))
    ensures
        step_spec(state, event, r.0, r.1),
{
    match event {
        FlowEvent::Start => {
            if flow_is_active(&state) {
                (state, FlowAction::Reject(AuthError::Conflict))
            } else {
                (FlowState::CodeRequested, FlowAction::RequestCode)
            }
        },
        FlowEvent::Cancel => {
            if flow_is_active(&state) {
                (FlowState::Cancelled, FlowAction::Nothing)
            } else {
                (state, FlowAction::Nothing)
            }
        },
        FlowEvent::TransportFailed(m) => match state {
            FlowState::CodeRequested | FlowState::Polling { .. } => {
                let again = m.clone();
                fail(AuthError::Network(m), AuthError::Network(again))
            },
            _ => (state, FlowAction::Nothing),
        },
        FlowEvent::DecodeFailed(m) => match state {
            FlowState::CodeRequested | FlowState::Polling { .. } => {
                let again = m.clone();
                fail(AuthError::Protocol(m), AuthError::Protocol(again))
            },
            _ => (state, FlowAction::Nothing),
        },
        FlowEvent::CodeIssued(d) => match state {
            FlowState::CodeRequested => on_code_issued(d),
            _ => (state, FlowAction::Nothing),
        },
        FlowEvent::CodeShown => match state {
            FlowState::AwaitingUserAction { device_code, interval, max_probes } => {
                if max_probes > 0 {
                    let probe_code = device_code.clone();
                    (
                        FlowState::Polling { device_code, interval, max_probes, probes: 1 },
                        FlowAction::Probe { device_code: probe_code, wait_secs: interval },
                    )
                } else {
                    time_out()
                }
            },
            _ => (state, FlowAction::Nothing),
        },
        FlowEvent::Reply(r) => match state {
            FlowState::Polling { device_code, interval, max_probes, probes } => on_reply(
                device_code,
                interval,
                max_probes,
                probes,
                r,
            ),
            _ => (state, FlowAction::Nothing),
        },
        FlowEvent::Stored(res) => match state {
            FlowState::Storing { token } => match res {
                Ok(_) => {
                    let returned = token.clone();
                    (FlowState::Authenticated { token }, FlowAction::Finish(Ok(returned)))
                },
                Err(m) => {
                    let again = m.clone();
                    fail(AuthError::Storage(m), AuthError::Storage(again))
                },
            },
            _ => (state, FlowAction::Nothing),
        },
    }
}

} // verus!
