use prism::device_flow::{
    flow_is_active, is_retryable_error, step, DeviceCode, FlowAction, FlowEvent, FlowState,
    TokenReply,
};
use prism::errors::AuthError;

fn code(expires_in: i32, interval: i32) -> DeviceCode {
    DeviceCode {
        device_code: "dev-123".to_string(),
        user_code: "ABCD-1234".to_string(),
        verification_uri: "https://github.com/login/device".to_string(),
        expires_in,
        interval,
    }
}

fn reply(token: Option<&str>, error: Option<&str>) -> FlowEvent {
    FlowEvent::Reply(TokenReply {
        access_token: token.map(|t| t.to_string()),
        error: error.map(|e| e.to_string()),
    })
}

fn polling(expires_in: i32, interval: i32) -> (FlowState, FlowAction) {
    let (s, a) = step(FlowState::Idle, FlowEvent::Start);
    assert!(matches!(a, FlowAction::RequestCode));
    let (s, a) = step(s, FlowEvent::CodeIssued(code(expires_in, interval)));
    match &a {
        FlowAction::ShowCode { user_code, verification_uri } => {
            assert_eq!(user_code, "ABCD-1234");
            assert_eq!(verification_uri, "https://github.com/login/device");
        }
        other => panic!("unexpected {:?}", other),
    }
    step(s, FlowEvent::CodeShown)
}

#[test]
fn successful_sign_in() {
    let (s, a) = polling(900, 5);
    match &a {
        FlowAction::Probe { device_code, wait_secs } => {
            assert_eq!(device_code, "dev-123");
            assert_eq!(*wait_secs, 5);
        }
        other => panic!("unexpected {:?}", other),
    }
    let (s, a) = step(s, reply(None, Some("authorization_pending")));
    assert!(matches!(a, FlowAction::Probe { .. }));
    let (s, a) = step(s, reply(None, Some("slow_down")));
    assert!(matches!(a, FlowAction::Probe { wait_secs: 5, .. }));
    let (s, a) = step(s, reply(Some("gho_token"), None));
    match &a {
        FlowAction::Store { token } => assert_eq!(token, "gho_token"),
        other => panic!("unexpected {:?}", other),
    }
    assert!(matches!(s, FlowState::Storing { .. }));
    let (s, a) = step(s, FlowEvent::Stored(Ok(())));
    match &a {
        FlowAction::Finish(Ok(token)) => assert_eq!(token, "gho_token"),
        other => panic!("unexpected {:?}", other),
    }
    assert!(matches!(s, FlowState::Authenticated { .. }));
    let (_, a) = step(s, reply(Some("other"), None));
    assert!(matches!(a, FlowAction::Nothing));
}

#[test]
fn probes_are_bounded_by_lifetime_over_interval() {
    let (mut s, mut a) = polling(17, 5);
    let mut probes = 0;
    loop {
        match a {
            FlowAction::Probe { .. } => probes += 1,
            FlowAction::Finish(Err(AuthError::TimedOut)) => break,
            other => panic!("unexpected {:?}", other),
        }
        let next = step(s, reply(None, Some("authorization_pending")));
        s = next.0;
        a = next.1;
    }
    assert_eq!(probes, 3);
    assert!(matches!(s, FlowState::TimedOut));
}

#[test]
fn short_lifetime_times_out_without_probing() {
    let (s, a) = polling(3, 5);
    assert!(matches!(s, FlowState::TimedOut));
    assert!(matches!(a, FlowAction::Finish(Err(AuthError::TimedOut))));
}

#[test]
fn reply_without_token_or_error_is_a_protocol_error() {
    let (s, _) = polling(900, 5);
    let (s, a) = step(s, reply(None, None));
    assert!(matches!(a, FlowAction::Finish(Err(AuthError::Protocol(_)))));
    assert!(matches!(s, FlowState::Failed { .. }));
}

#[test]
fn pending_reply_counts_probes() {
    let (s, _) = polling(900, 5);
    let (s, a) = step(s, reply(None, Some("slow_down")));
    assert!(matches!(a, FlowAction::Probe { .. }));
    match s {
        FlowState::Polling { probes, max_probes, .. } => {
            assert_eq!(probes, 2);
            assert_eq!(max_probes, 180);
        }
        other => panic!("unexpected {:?}", other),
    }
}

#[test]
fn provider_code_timed_out_is_not_the_timeout() {
    let (s, _) = polling(900, 5);
    let (_, a) = step(s, reply(None, Some("timed out")));
    match &a {
        FlowAction::Finish(Err(AuthError::OAuth(m))) => assert_eq!(m, "timed out"),
        other => panic!("unexpected {:?}", other),
    }
}

#[test]
fn other_error_fails_the_sign_in() {
    let (s, _) = polling(900, 5);
    let (s, a) = step(s, reply(None, Some("access_denied")));
    match &a {
        FlowAction::Finish(Err(AuthError::OAuth(m))) => assert_eq!(m, "access_denied"),
        other => panic!("unexpected {:?}", other),
    }
    assert!(matches!(s, FlowState::Failed { error: AuthError::OAuth(_) }));
    let (_, a) = step(s, reply(Some("late"), None));
    assert!(matches!(a, FlowAction::Nothing));
}

#[test]
fn zero_interval_is_a_protocol_error() {
    let (s, _) = step(FlowState::Idle, FlowEvent::Start);
    let (s, a) = step(s, FlowEvent::CodeIssued(code(900, 0)));
    assert!(matches!(a, FlowAction::Finish(Err(AuthError::Protocol(_)))));
    assert!(matches!(s, FlowState::Failed { .. }));
}

#[test]
fn transport_and_decode_failures() {
    let (s, _) = step(FlowState::Idle, FlowEvent::Start);
    let (_, a) = step(s, FlowEvent::TransportFailed("dns".to_string()));
    match &a {
        FlowAction::Finish(Err(AuthError::Network(m))) => assert_eq!(m, "dns"),
        other => panic!("unexpected {:?}", other),
    }
    let (s, _) = polling(900, 5);
    let (_, a) = step(s, FlowEvent::DecodeFailed("bad json".to_string()));
    match &a {
        FlowAction::Finish(Err(AuthError::Protocol(m))) => assert_eq!(m, "bad json"),
        other => panic!("unexpected {:?}", other),
    }
}

#[test]
fn storage_failure_fails_the_sign_in() {
    let (s, _) = polling(900, 5);
    let (s, _) = step(s, reply(Some("tok"), None));
    let (s, a) = step(s, FlowEvent::Stored(Err("permission denied".to_string())));
    match &a {
        FlowAction::Finish(Err(AuthError::Storage(m))) => assert_eq!(m, "permission denied"),
        other => panic!("unexpected {:?}", other),
    }
    assert!(!flow_is_active(&s));
}

#[test]
fn second_start_is_a_conflict() {
    let (s, _) = polling(900, 5);
    assert!(flow_is_active(&s));
    let (s, a) = step(s, FlowEvent::Start);
    assert!(matches!(a, FlowAction::Reject(AuthError::Conflict)));
    assert!(matches!(s, FlowState::Polling { probes: 1, .. }));
}

#[test]
fn cancel_stops_polling() {
    let (s, _) = polling(900, 5);
    let (s, a) = step(s, FlowEvent::Cancel);
    assert!(matches!(a, FlowAction::Nothing));
    assert!(matches!(s, FlowState::Cancelled));
    let (s, a) = step(s, reply(Some("tok"), None));
    assert!(matches!(a, FlowAction::Nothing));
    let (_, a) = step(s, FlowEvent::Start);
    assert!(matches!(a, FlowAction::RequestCode));
}

#[test]
fn retryable_codes() {
    assert!(is_retryable_error(&"authorization_pending".to_string()));
    assert!(is_retryable_error(&"slow_down".to_string()));
    assert!(!is_retryable_error(&"expired_token".to_string()));
    assert!(!is_retryable_error(&"".to_string()));
}

#[test]
fn error_messages() {
    assert_eq!(AuthError::TimedOut.message(), "OAuth flow timed out");
    assert_eq!(AuthError::OAuth("timed out".to_string()).message(), "OAuth error: timed out");
    assert_eq!(AuthError::OAuth("access_denied".to_string()).message(), "OAuth error: access_denied");
    assert_eq!(AuthError::NotAuthenticated.message(), "Not authenticated");
    assert_eq!(AuthError::Network("no route".to_string()).message(), "no route");
    assert_eq!(AuthError::Protocol("bad".to_string()).message(), "bad");
    assert_eq!(AuthError::Storage("disk full".to_string()).message(), "disk full");
    assert_eq!(AuthError::Conflict.message(), "A sign-in is already in progress");
}
