use lrgp::constants::{
    CMD_ACCEPT, CMD_CHALLENGE, CMD_DECLINE, CMD_DRAW_ACCEPT, CMD_MOVE, CMD_RESIGN, STATUS_ACTIVE, STATUS_COMPLETED,
    STATUS_DECLINED, STATUS_EXPIRED, STATUS_PENDING,
};
use lrgp::errors::LrgpError;
use lrgp::session::{Session, SessionStateMachine, SessionTtl};

// Times are milliseconds since the Unix epoch.

/// A session with this status whose last action is now.
fn make_session(status: &str) -> Session {
    let mut s = Session::new("test-session");
    s.status = status.to_string();
    s
}

#[test]
fn test_pending_accept_to_active() {
    let mut s = make_session(STATUS_PENDING);
    let result = SessionStateMachine::apply_command(&mut s, CMD_ACCEPT, false).unwrap();
    assert_eq!(result, STATUS_ACTIVE);
}

#[test]
fn test_pending_decline_to_declined() {
    let mut s = make_session(STATUS_PENDING);
    let result = SessionStateMachine::apply_command(&mut s, CMD_DECLINE, false).unwrap();
    assert_eq!(result, STATUS_DECLINED);
}

#[test]
fn test_active_resign_to_completed() {
    let mut s = make_session(STATUS_ACTIVE);
    let result = SessionStateMachine::apply_command(&mut s, CMD_RESIGN, false).unwrap();
    assert_eq!(result, STATUS_COMPLETED);
}

#[test]
fn test_active_draw_accept_to_completed() {
    let mut s = make_session(STATUS_ACTIVE);
    let result = SessionStateMachine::apply_command(&mut s, CMD_DRAW_ACCEPT, false).unwrap();
    assert_eq!(result, STATUS_COMPLETED);
}

#[test]
fn test_active_move_stays_active() {
    let mut s = make_session(STATUS_ACTIVE);
    let result = SessionStateMachine::apply_command(&mut s, CMD_MOVE, false).unwrap();
    assert_eq!(result, STATUS_ACTIVE);
}

#[test]
fn test_active_move_terminal_completes() {
    let mut s = make_session(STATUS_ACTIVE);
    let result = SessionStateMachine::apply_command(&mut s, CMD_MOVE, true).unwrap();
    assert_eq!(result, STATUS_COMPLETED);
}

#[test]
fn test_challenge_on_pending_stays_pending() {
    let mut s = make_session(STATUS_PENDING);
    let result = SessionStateMachine::apply_command(&mut s, CMD_CHALLENGE, false).unwrap();
    assert_eq!(result, STATUS_PENDING);
}

#[test]
fn test_illegal_transition() {
    let mut s = make_session(STATUS_COMPLETED);
    let result = SessionStateMachine::apply_command(&mut s, CMD_MOVE, false);
    assert!(result.is_err());
}

#[test]
fn test_check_expiry_pending() {
    let mut s = make_session(STATUS_PENDING);
    s.last_action_at = 1_000_000;
    let expired = SessionStateMachine::check_expiry(&mut s, None, Some(1_000_000_000));
    assert!(expired);
    assert_eq!(s.status, STATUS_EXPIRED);
}

#[test]
fn test_check_expiry_active_not_expired() {
    let mut s = make_session(STATUS_ACTIVE);
    let t = s.last_action_at;
    let expired = SessionStateMachine::check_expiry(&mut s, None, Some(t + 100_000));
    assert!(!expired);
    assert_eq!(s.status, STATUS_ACTIVE);
}

#[test]
fn test_check_expiry_completed_ignored() {
    let mut s = make_session(STATUS_COMPLETED);
    s.last_action_at = 0;
    let expired = SessionStateMachine::check_expiry(&mut s, None, Some(1_000_000_000));
    assert!(!expired);
}

#[test]
fn test_check_expiry_custom_ttl() {
    let mut s = make_session(STATUS_PENDING);
    s.last_action_at = 1_000_000;
    let ttl = SessionTtl { pending: Some(100_000), active: None };
    // now = 1000 s + 100 s + 3600 s (grace) + 1 s
    let expired = SessionStateMachine::check_expiry(&mut s, Some(&ttl), Some(4_701_000));
    assert!(expired);
}

#[test]
fn test_check_expiry_boundary() {
    let ttl = SessionTtl { pending: Some(100_000), active: None };
    let mut s = make_session(STATUS_PENDING);
    s.last_action_at = 1_000_000;
    // Exactly ttl + grace after the last action: not yet expired.
    assert!(!SessionStateMachine::check_expiry(&mut s, Some(&ttl), Some(4_700_000)));
    assert_eq!(s.status, STATUS_PENDING);
    // Active sessions fall back to the seven-day default.
    let mut a = make_session(STATUS_ACTIVE);
    a.last_action_at = 0;
    assert!(!SessionStateMachine::check_expiry(&mut a, Some(&ttl), Some(604_800_000 + 3_600_000)));
    assert!(SessionStateMachine::check_expiry(&mut a, Some(&ttl), Some(604_800_000 + 3_600_001)));
    assert_eq!(a.status, STATUS_EXPIRED);
    assert_eq!(a.updated_at, 604_800_000 + 3_600_001);
}

#[test]
fn test_apply_command_at_updates_times() {
    let mut s = Session::new_at("abc", 5);
    assert_eq!(s.status, STATUS_PENDING);
    assert_eq!(s.created_at, 5);
    let r = SessionStateMachine::apply_command_at(&mut s, CMD_ACCEPT, false, 9).unwrap();
    assert_eq!(r, STATUS_ACTIVE);
    assert_eq!(s.updated_at, 9);
    assert_eq!(s.last_action_at, 9);
    assert_eq!(s.created_at, 5);
    match SessionStateMachine::apply_command_at(&mut s, CMD_ACCEPT, false, 11) {
        Err(LrgpError::IllegalTransition { command, status }) => {
            assert_eq!(command, "accept");
            assert_eq!(status, "active");
        },
        _ => panic!("expected an illegal transition"),
    }
    assert_eq!(s.updated_at, 9);
}

#[test]
fn test_get_transition_and_same_status() {
    assert_eq!(SessionStateMachine::get_transition(STATUS_PENDING, CMD_ACCEPT), Some(STATUS_ACTIVE));
    assert_eq!(SessionStateMachine::get_transition(STATUS_PENDING, CMD_DECLINE), Some(STATUS_DECLINED));
    assert_eq!(SessionStateMachine::get_transition(STATUS_ACTIVE, CMD_RESIGN), Some(STATUS_COMPLETED));
    assert_eq!(SessionStateMachine::get_transition(STATUS_ACTIVE, CMD_DRAW_ACCEPT), Some(STATUS_COMPLETED));
    assert_eq!(SessionStateMachine::get_transition(STATUS_ACTIVE, CMD_ACCEPT), None);
    assert!(SessionStateMachine::is_same_status_command(STATUS_ACTIVE, CMD_MOVE));
    assert!(SessionStateMachine::is_same_status_command(STATUS_ACTIVE, "draw_offer"));
    assert!(SessionStateMachine::is_same_status_command(STATUS_ACTIVE, "error"));
    assert!(!SessionStateMachine::is_same_status_command(STATUS_PENDING, CMD_MOVE));
    assert!(!SessionStateMachine::is_same_status_command(STATUS_ACTIVE, CMD_RESIGN));
}

#[test]
fn test_final_statuses_take_no_command() {
    for status in [STATUS_COMPLETED, STATUS_EXPIRED, STATUS_DECLINED] {
        for command in [CMD_CHALLENGE, CMD_ACCEPT, CMD_DECLINE, CMD_MOVE, CMD_RESIGN, CMD_DRAW_ACCEPT] {
            let mut s = make_session(status);
            assert!(SessionStateMachine::apply_command(&mut s, command, false).is_err());
            assert_eq!(s.status, status);
        }
        let mut s = make_session(status);
        s.last_action_at = 0;
        assert!(!SessionStateMachine::check_expiry(&mut s, None, Some(i64::MAX)));
    }
}
