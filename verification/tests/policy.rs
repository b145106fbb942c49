use avp::dates::parse_rfc3339;
use avp::intent::{AgentId, IntentFile};
use avp::policy::{Duration, PauseReason, RecoveryAction, RecoveryPolicy};
use avp::session::{Session, SessionState};

#[test]
fn auto_recoverable_set() {
    assert!(PauseReason::RateLimit.auto_recoverable());
    assert!(PauseReason::Network.auto_recoverable());
    assert!(PauseReason::ContextCompaction.auto_recoverable());
    assert!(!PauseReason::Permission.auto_recoverable());
    assert!(!PauseReason::Blocked.auto_recoverable());
}

#[test]
fn permission_escalates_immediately() {
    let p = RecoveryPolicy::default();
    let a = p.decide(PauseReason::Permission, 0);
    assert!(matches!(a, RecoveryAction::Escalate { .. }));
}

#[test]
fn rate_limit_first_resume_uses_base_backoff() {
    let p = RecoveryPolicy::default();
    let RecoveryAction::ResumeAfter { delay } = p.decide(PauseReason::RateLimit, 0) else {
        panic!("expected resume");
    };
    assert_eq!(delay, p.base_backoff);
}

#[test]
fn rate_limit_doubles_with_each_resume() {
    let p = RecoveryPolicy::default();
    let RecoveryAction::ResumeAfter { delay: d1 } = p.decide(PauseReason::RateLimit, 1) else {
        panic!()
    };
    let RecoveryAction::ResumeAfter { delay: d2 } = p.decide(PauseReason::RateLimit, 2) else {
        panic!()
    };
    assert_eq!(d1, p.base_backoff.saturating_mul(2));
    assert_eq!(d2, p.base_backoff.saturating_mul(4));
    assert_eq!(d2.as_secs(), 60);
}

#[test]
fn backoff_caps_at_max() {
    let d = RecoveryPolicy::default();
    let p = RecoveryPolicy::new(u32::MAX, d.base_backoff, d.max_backoff);
    let RecoveryAction::ResumeAfter { delay } = p.decide(PauseReason::RateLimit, 30) else {
        panic!("expected ResumeAfter after large resume_count")
    };
    assert_eq!(delay, p.max_backoff);
}

#[test]
fn max_resumes_escalates() {
    let d = RecoveryPolicy::default();
    let p = RecoveryPolicy::new(3, d.base_backoff, d.max_backoff);
    let a = p.decide(PauseReason::RateLimit, 3);
    assert!(matches!(a, RecoveryAction::Escalate { .. }));
    let a = p.decide(PauseReason::RateLimit, 100);
    assert!(matches!(a, RecoveryAction::Escalate { .. }));
}

#[test]
fn escalation_reasons_are_stable() {
    let p = RecoveryPolicy::default();
    assert!(matches!(p.decide(PauseReason::Blocked, 0), RecoveryAction::Escalate { reason: "irrecoverable blocked state" }));
    assert!(matches!(
        p.decide(PauseReason::Network, 6),
        RecoveryAction::Escalate { reason: "max resumes exceeded; supervisor giving up" }
    ));
}

#[test]
fn policy_label_is_stable() {
    assert_eq!(PauseReason::RateLimit.label(), "rate-limit");
    assert_eq!(PauseReason::ContextCompaction.label(), "context-compaction");
}

#[test]
fn duration_arithmetic() {
    let d = Duration::from_secs(15);
    assert_eq!(d.as_nanos(), 15_000_000_000);
    assert_eq!(d.saturating_mul(4).as_secs(), 60);
    assert_eq!(Duration::from_secs(u64::MAX).saturating_mul(2), Duration::from_secs(u64::MAX).saturating_mul(3));
    assert_eq!(d.min(Duration::from_secs(3)), Duration::from_secs(3));
}

fn intent() -> IntentFile {
    IntentFile::from_parts(
        AgentId::new("agent-test").unwrap(),
        "agent/test".to_string(),
        "g".to_string(),
        "true".to_string(),
        parse_rfc3339("2026-05-01T00:00:00Z").unwrap(),
        Vec::new(),
        Vec::new(),
        None,
        None,
    )
}

#[test]
fn fresh_session_is_queued() {
    let s = Session::new(intent(), "/tmp/wt".to_string());
    assert!(matches!(s.state, SessionState::Queued));
    assert_eq!(s.resume_count, 0);
    assert_eq!(s.id.0, "agent-test");
}

#[test]
fn session_label_is_stable() {
    assert_eq!(SessionState::Queued.label(), "queued");
    assert_eq!(SessionState::Running.label(), "running");
    assert_eq!(SessionState::Paused(PauseReason::RateLimit).label(), "paused");
    assert_eq!(SessionState::Resumed.label(), "resumed");
    assert_eq!(SessionState::Done.label(), "done");
    assert_eq!(SessionState::Failed { reason: "x".into() }.label(), "failed");
}

#[test]
fn terminal_states() {
    assert!(SessionState::Done.is_terminal());
    assert!(SessionState::Failed { reason: "x".into() }.is_terminal());
    assert!(!SessionState::Queued.is_terminal());
    assert!(!SessionState::Running.is_terminal());
    assert!(!SessionState::Paused(PauseReason::Network).is_terminal());
}

#[test]
fn transition_updates_state_and_stamp() {
    let mut s = Session::new(intent(), "/tmp/wt".to_string());
    let before = s.state_since;
    let start = std::time::Instant::now();
    while start.elapsed() < std::time::Duration::from_millis(2) {}
    s.transition(SessionState::Running);
    assert!(matches!(s.state, SessionState::Running));
    assert!(s.state_since > before);
}

#[test]
fn resume_counter_saturates() {
    let mut s = Session::new(intent(), "/tmp/wt".to_string());
    s.resume_count = u32::MAX;
    s.record_resume();
    assert_eq!(s.resume_count, u32::MAX);
}

#[test]
fn network_pauses_are_gentler_than_rate_limits() {
    let p = RecoveryPolicy::default();
    for k in 0..3 {
        let RecoveryAction::ResumeAfter { delay } = p.decide(PauseReason::Network, k) else {
            panic!("expected resume at {k}");
        };
        assert_eq!(delay, p.base_backoff);
    }
    assert!(matches!(p.decide(PauseReason::Network, 3), RecoveryAction::Escalate { .. }));
    assert!(matches!(p.decide(PauseReason::RateLimit, 3), RecoveryAction::ResumeAfter { .. }));
    let RecoveryAction::ResumeAfter { delay } = p.decide(PauseReason::RateLimit, 2) else { panic!() };
    assert_eq!(delay.as_secs(), 60);
}
