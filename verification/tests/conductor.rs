use avp::claude_event::{
    map_event, ApiStreamEvent, ClaudeEvent, ContentDelta, Mapped, MappedDriverEvent,
    StreamEventOuter, SystemEvent, SystemSubtype,
};
use avp::conductor::{
    cap_message, driver_info, dry_run, event_line, group_by_host, group_event_line, host_line,
    hosts_info_line, hosts_listing, info_header, next_drive_step, run_summary, session_worktree,
    DriveStep, DryRunError, INTENT_REQUIRED,
};
use avp::config::{HostsConfig, RawConfig, RawHost, RawRule};
use avp::dates::parse_rfc3339;
use avp::driver::{DriverEvent, MockDriver, SessionHandle};
use avp::event::{SupervisorEvent, SupervisorEventKind, TerminalOutcome};
use avp::host::{Host, SshTarget};
use avp::intent::{AgentId, IntentFile};
use avp::policy::{PauseReason, RecoveryPolicy};
use avp::session::{Session, SessionId, SessionState};
use avp::supervisor::{render_system_prompt, Supervisor};

fn intent_for(agent: &str) -> IntentFile {
    IntentFile::from_parts(
        AgentId::new(agent).unwrap(),
        format!("agent/{agent}"),
        "test".to_string(),
        "true".to_string(),
        parse_rfc3339("2026-05-01T00:00:00Z").unwrap(),
        Vec::new(),
        Vec::new(),
        None,
        None,
    )
}

fn session_for(agent: &str) -> Session {
    Session::new(intent_for(agent), format!("/tmp/wt-{agent}"))
}

fn id(s: &str) -> SessionId {
    SessionId(s.to_owned())
}

// ───────────── mock driver ─────────────

#[test]
fn start_returns_handle() {
    let d = MockDriver::new();
    let h = d.start(&id("alpha"), "/tmp", "prompt").unwrap();
    assert_eq!(h.id, id("alpha"));
}

#[test]
fn poll_drains_scripted_events() {
    let mut d = MockDriver::new();
    let h = d.start(&id("alpha"), "/tmp", "p").unwrap();
    d.script(&id("alpha"), DriverEvent::Log { line: "hello".into() });
    d.script(&id("alpha"), DriverEvent::Done);
    let events = d.poll(&h).unwrap();
    assert_eq!(events.len(), 2);
    assert!(d.poll(&h).unwrap().is_empty());
}

#[test]
fn poll_keeps_other_sessions_scripts() {
    let mut d = MockDriver::new();
    let a = d.start(&id("alpha"), "/tmp", "p").unwrap();
    let b = d.start(&id("beta"), "/tmp", "p").unwrap();
    d.script(&id("beta"), DriverEvent::Done);
    d.script(&id("alpha"), DriverEvent::Log { line: "x".into() });
    assert_eq!(d.poll(&a).unwrap().len(), 1);
    assert_eq!(d.poll(&b).unwrap().len(), 1);
}

#[test]
fn resume_records_count() {
    let mut d = MockDriver::new();
    let h = d.start(&id("alpha"), "/tmp", "p").unwrap();
    d.resume(&h).unwrap();
    d.resume(&h).unwrap();
    assert_eq!(d.resume_count(&id("alpha")), 2);
}

#[test]
fn kill_marks_session() {
    let mut d = MockDriver::new();
    let h = d.start(&id("alpha"), "/tmp", "p").unwrap();
    assert!(!d.was_killed(&id("alpha")));
    d.kill(&h).unwrap();
    assert!(d.was_killed(&id("alpha")));
}

#[test]
fn poll_unknown_session_returns_empty() {
    let mut d = MockDriver::new();
    let fake_handle = SessionHandle::new(id("ghost"), "x".into());
    assert!(d.poll(&fake_handle).unwrap().is_empty());
}

// ───────────── supervisor ─────────────

fn kinds(events: &[SupervisorEvent]) -> Vec<&'static str> {
    events
        .iter()
        .map(|e| match &e.kind {
            SupervisorEventKind::Queued => "queued",
            SupervisorEventKind::Started => "started",
            SupervisorEventKind::Terminal { outcome } => match outcome {
                TerminalOutcome::Done => "done",
                TerminalOutcome::Failed => "failed",
                _ => "other",
            },
            _ => "other",
        })
        .collect()
}

#[test]
fn happy_path_done() {
    let mut sup = Supervisor::new(MockDriver::new());
    sup.enroll(session_for("alpha"));
    sup.step().unwrap();
    let snap = sup.snapshot();
    assert!(matches!(snap[0].1, SessionState::Running));
    sup.script(&snap[0].0, DriverEvent::Done);
    sup.step().unwrap();
    assert!(sup.is_done());
    let events = sup.drain_events();
    assert_eq!(kinds(&events), vec!["queued", "started", "done"]);
    assert!(sup.drain_events().is_empty());
}

#[test]
fn rate_limit_pauses_then_resumes() {
    let mut sup = Supervisor::new(MockDriver::new());
    sup.enroll(session_for("alpha"));
    sup.step().unwrap();
    sup.script(&id("alpha"), DriverEvent::Paused { reason: PauseReason::RateLimit });
    sup.step().unwrap();
    let snap = sup.snapshot();
    assert!(matches!(snap[0].1, SessionState::Paused(PauseReason::RateLimit)));
    sup.wake(&id("alpha")).unwrap();
    sup.step().unwrap();
    let snap = sup.snapshot();
    assert!(matches!(snap[0].1, SessionState::Running));
    assert_eq!(sup.driver.resume_count(&id("alpha")), 1);
    assert_eq!(snap[0].2, 1);
}

#[test]
fn permission_pause_escalates_immediately() {
    let mut sup = Supervisor::new(MockDriver::new());
    sup.enroll(session_for("alpha"));
    sup.step().unwrap();
    sup.script(&id("alpha"), DriverEvent::Paused { reason: PauseReason::Permission });
    sup.step().unwrap();
    let snap = sup.snapshot();
    assert!(matches!(snap[0].1, SessionState::Failed { .. }));
    assert!(sup.is_done());
}

#[test]
fn driver_failure_marks_failed() {
    let mut sup = Supervisor::new(MockDriver::new());
    sup.enroll(session_for("alpha"));
    sup.step().unwrap();
    sup.script(&id("alpha"), DriverEvent::Failed { reason: "kaboom".into() });
    sup.step().unwrap();
    let snap = sup.snapshot();
    let SessionState::Failed { reason } = &snap[0].1 else {
        panic!("expected Failed");
    };
    assert_eq!(reason, "kaboom");
}

#[test]
fn multiple_sessions_step_independently() {
    let mut sup = Supervisor::new(MockDriver::new());
    sup.enroll(session_for("alpha"));
    sup.enroll(session_for("beta"));
    sup.step().unwrap();
    sup.script(&id("alpha"), DriverEvent::Done);
    sup.script(&id("beta"), DriverEvent::Failed { reason: "x".into() });
    sup.step().unwrap();
    let snap = sup.snapshot();
    assert!(matches!(snap[0].1, SessionState::Done));
    assert!(matches!(snap[1].1, SessionState::Failed { .. }));
}

#[test]
fn max_resumes_eventually_escalates() {
    let d = RecoveryPolicy::default();
    let policy = RecoveryPolicy::new(2, d.base_backoff, d.max_backoff);
    let mut sup = Supervisor::with_policy(MockDriver::new(), policy);
    sup.enroll(session_for("alpha"));
    sup.step().unwrap();
    for _ in 0..3 {
        sup.script(&id("alpha"), DriverEvent::Paused { reason: PauseReason::RateLimit });
        sup.step().unwrap();
        sup.wake(&id("alpha")).unwrap();
        sup.step().unwrap();
    }
    sup.script(&id("alpha"), DriverEvent::Paused { reason: PauseReason::RateLimit });
    sup.step().unwrap();
    let snap = sup.snapshot();
    assert!(matches!(snap[0].1, SessionState::Failed { .. }));
}

#[test]
fn log_events_update_last_line_and_log() {
    let mut sup = Supervisor::new(MockDriver::new());
    sup.enroll(session_for("alpha"));
    sup.step().unwrap();
    sup.script(&id("alpha"), DriverEvent::Log { line: "hello".into() });
    sup.step().unwrap();
    let events = sup.drain_events();
    assert!(matches!(&events[2].kind, SupervisorEventKind::Log { line } if line == "hello"));
}

#[test]
fn wake_unknown_session_errors() {
    let mut sup = Supervisor::new(MockDriver::new());
    assert!(sup.wake(&id("nobody")).is_err());
}

#[test]
fn render_system_prompt_includes_branch_and_files() {
    let mut intent = intent_for("alpha");
    intent.declared_files = vec!["src/lib.rs".into(), "Cargo.toml".into()];
    let session = Session::new(intent, "/tmp/wt".to_string());
    let prompt = render_system_prompt(&session);
    assert!(prompt.contains("agent/alpha"));
    assert!(prompt.contains("src/lib.rs"));
    assert!(prompt.contains("Cargo.toml"));
}

// ───────────── stream-event mapping ─────────────

fn system(subtype: SystemSubtype, session: Option<&str>, error: Option<&str>) -> ClaudeEvent {
    ClaudeEvent::System(SystemEvent::new(
        subtype,
        None,
        session.map(str::to_string),
        error.map(str::to_string),
        None,
    ))
}

fn stream(session: Option<&str>, event: ApiStreamEvent) -> ClaudeEvent {
    ClaudeEvent::StreamEvent(StreamEventOuter::new(None, session.map(str::to_string), None, event))
}

#[test]
fn map_init_captures_session_id() {
    assert_eq!(map_event(&system(SystemSubtype::Init, Some("sess-1"), None)), Mapped::SessionId("sess-1".to_owned()));
}

#[test]
fn map_api_retry_rate_limit_pauses() {
    assert_eq!(
        map_event(&system(SystemSubtype::ApiRetry, None, Some("rate_limit"))),
        Mapped::DriverEvent(MappedDriverEvent::Paused { reason: PauseReason::RateLimit })
    );
}

#[test]
fn map_api_retry_other_error_maps_to_network() {
    assert_eq!(
        map_event(&system(SystemSubtype::ApiRetry, None, Some("server_error"))),
        Mapped::DriverEvent(MappedDriverEvent::Paused { reason: PauseReason::Network })
    );
}

#[test]
fn map_compact_boundary_pauses_for_compaction() {
    assert_eq!(
        map_event(&system(SystemSubtype::CompactBoundary, None, None)),
        Mapped::DriverEvent(MappedDriverEvent::Paused { reason: PauseReason::ContextCompaction })
    );
}

#[test]
fn map_plugin_install_skips() {
    assert_eq!(map_event(&system(SystemSubtype::PluginInstall, Some("s"), None)), Mapped::Skip);
}

#[test]
fn text_delta_logs() {
    let e = stream(Some("s"), ApiStreamEvent::ContentBlockDelta { index: Some(0), delta: ContentDelta::TextDelta { text: "hello".into() } });
    assert_eq!(map_event(&e), Mapped::DriverEvent(MappedDriverEvent::Log { line: "hello".to_owned() }));
}

#[test]
fn empty_text_delta_skips_but_captures_session() {
    let e = stream(Some("sess-9"), ApiStreamEvent::ContentBlockDelta { index: None, delta: ContentDelta::TextDelta { text: String::new() } });
    assert_eq!(map_event(&e), Mapped::SessionId("sess-9".to_owned()));
}

#[test]
fn stream_input_json_delta_logs_with_prefix() {
    let e = stream(None, ApiStreamEvent::ContentBlockDelta { index: None, delta: ContentDelta::InputJsonDelta { partial_json: "{\"foo".into() } });
    assert_eq!(map_event(&e), Mapped::DriverEvent(MappedDriverEvent::Log { line: "(tool-input) {\"foo".to_owned() }));
}

#[test]
fn stream_message_stop_skips() {
    assert_eq!(map_event(&stream(None, ApiStreamEvent::MessageStop)), Mapped::Skip);
}

#[test]
fn stream_unknown_event_type_skips() {
    assert_eq!(map_event(&stream(None, ApiStreamEvent::Other)), Mapped::Skip);
}

#[test]
fn stream_message_start_skips_unless_session_present() {
    assert_eq!(map_event(&stream(None, ApiStreamEvent::MessageStart)), Mapped::Skip);
    assert_eq!(map_event(&stream(Some("s2"), ApiStreamEvent::MessageStart)), Mapped::SessionId("s2".into()));
}

#[test]
fn other_events_skip() {
    assert_eq!(
        map_event(&ClaudeEvent::Other),
        Mapped::DriverEvent(MappedDriverEvent::Log { line: "(unrecognized stream event)".to_string() })
    );
}

// ───────────── conductor output ─────────────

fn ev(session: Option<&str>, kind: SupervisorEventKind) -> SupervisorEvent {
    SupervisorEvent::now(session.map(id), kind)
}

#[test]
fn event_lines_are_padded() {
    assert_eq!(event_line(&ev(Some("alpha"), SupervisorEventKind::Queued)), format!("{:>30}  queued", "alpha"));
    assert_eq!(event_line(&ev(None, SupervisorEventKind::Started)), format!("{:>30}  started", "-"));
    assert_eq!(
        event_line(&ev(Some("a"), SupervisorEventKind::ResumeScheduled { delay_seconds: 15 })),
        format!("{:>30}  resume-after-15s", "a")
    );
    assert_eq!(
        event_line(&ev(Some("a"), SupervisorEventKind::Terminal { outcome: TerminalOutcome::Done })),
        format!("{:>30}  terminal: Done", "a")
    );
    assert_eq!(
        event_line(&ev(Some("a"), SupervisorEventKind::Paused { reason: PauseReason::RateLimit })),
        format!("{:>30}  paused: rate-limit", "a")
    );
    let long = "x".repeat(40);
    assert_eq!(event_line(&ev(Some(&long), SupervisorEventKind::Escalated { reason: "r".into() })), format!("{long}  escalated: r"));
    assert_eq!(
        group_event_line("vps", &ev(Some("a"), SupervisorEventKind::Log { line: "hi".into() })),
        format!("[{:>14}] {:>30}  log: hi", "vps", "a")
    );
}

fn raw_host(name: &str, host: &str, workdir: &str) -> RawHost {
    RawHost {
        name: name.into(),
        local: false,
        host: Some(host.into()),
        user: None,
        port: None,
        identity_file: None,
        remote_workdir: Some(workdir.into()),
        ssh_options: Vec::new(),
        control_socket: None,
    }
}

fn hosts() -> HostsConfig {
    RawConfig {
        default: "local".into(),
        hosts: vec![raw_host("vps", "vps.example.com", "/srv/x")],
        rules: vec![RawRule { pattern: "tests-*".into(), host: "vps".into() }],
    }
    .validate_and_compile()
    .unwrap()
}

#[test]
fn hosts_output() {
    let h = hosts();
    let lines = hosts_listing(&h, &vec!["tests-fast".to_string(), "other".to_string()]);
    assert_eq!(
        lines,
        vec![
            "hosts (2 declared):".to_string(),
            format!("  {:>16} *  local", "local"),
            format!("  {:>16}  ssh:vps.example.com", "vps"),
            "\nrouting:".to_string(),
            format!("  {:>32}  \u{2192}  ssh:vps.example.com", "tests-fast"),
            format!("  {:>32}  \u{2192}  local", "other"),
        ]
    );
    assert_eq!(hosts_listing(&h, &Vec::new()).len(), 3);
    assert_eq!(host_line("x", &Host::Local, "y"), format!("  {:>16}  local", "x"));
    assert_eq!(hosts_info_line(&h.host_names(), "local"), "hosts: local, vps  (default: local)");
    assert_eq!(info_header(), "conductor 0.1.0 (conductor-core 0.1.0)");
    assert_eq!(driver_info("agent"), "driver: mock (real agent-cli driver lands v0.2)");
}

#[test]
fn worktree_choice() {
    let t = SshTarget::new("h", "/srv/w").unwrap();
    assert_eq!(session_worktree(Some("/o"), &Host::Local, Some("/i")), "/o");
    assert_eq!(session_worktree(None, &Host::Ssh(t), Some("/i")), "/srv/w");
    assert_eq!(session_worktree(None, &Host::Local, Some("/i")), "/i");
    assert_eq!(session_worktree(None, &Host::Local, None), ".");
}

#[test]
fn grouping_keeps_first_appearance_order() {
    let routed = vec![
        ("vps".to_string(), session_for("a")),
        ("local".to_string(), session_for("b")),
        ("vps".to_string(), session_for("c")),
    ];
    let groups = group_by_host(routed);
    assert_eq!(groups.len(), 2);
    assert_eq!(groups[0].0, "vps");
    assert_eq!(groups[0].1.iter().map(|s| s.id.0.clone()).collect::<Vec<_>>(), vec!["a", "c"]);
    assert_eq!(groups[1].0, "local");
    assert_eq!(groups[1].1.len(), 1);
}

#[test]
fn drive_loop_decisions() {
    assert_eq!(next_drive_step(true, 5, 3), DriveStep::Finished);
    assert_eq!(next_drive_step(false, 3, 3), DriveStep::CapReached);
    assert_eq!(next_drive_step(false, 2, 3), DriveStep::Step);
    assert_eq!(cap_message(None, 64), "supervisor not done after 64 steps");
    assert_eq!(cap_message(Some("vps"), 7), "[vps] supervisor not done after 7 steps");
    assert_eq!(run_summary(2, 5), "conductor: 2 group(s), 5 session(s) terminal");
    assert_eq!(INTENT_REQUIRED, "--intent <path> required (repeatable)");
}

#[test]
fn dry_run_walks_every_session_to_done() {
    let events = dry_run(vec![session_for("a"), session_for("b")], 64).unwrap();
    assert_eq!(kinds(&events), vec!["queued", "queued", "started", "started", "done", "done"]);
    assert!(matches!(dry_run(vec![session_for("a")], 1), Err(DryRunError::NotDone(1))));
    assert!(dry_run(Vec::new(), 0).unwrap().is_empty());
}

#[test]
fn dry_run_with_a_shared_id_never_completes() {
    assert!(matches!(
        dry_run(vec![session_for("a"), session_for("a")], 16),
        Err(DryRunError::NotDone(16))
    ));
    let events = dry_run(vec![session_for("a"), session_for("b"), session_for("c")], 2).unwrap();
    assert_eq!(events.len(), 9);
    assert_eq!(events[8].session.as_ref().unwrap().0, session_for("c").id.0);
}

#[test]
fn pause_ends_the_batch() {
    let mut sup = Supervisor::new(MockDriver::new());
    sup.enroll(session_for("alpha"));
    sup.step().unwrap();
    sup.script(&id("alpha"), DriverEvent::Paused { reason: PauseReason::RateLimit });
    sup.script(&id("alpha"), DriverEvent::Done);
    sup.step().unwrap();
    let snap = sup.snapshot();
    assert!(matches!(snap[0].1, SessionState::Paused(PauseReason::RateLimit)));
    assert!(!sup.is_done());
}

#[test]
fn unknown_stream_events_are_logged() {
    assert_eq!(
        avp::launch::line_event("{\"type\":\"future\"}", Some(ClaudeEvent::Other)),
        Some(DriverEvent::Log { line: "(unrecognized stream event)".to_string() })
    );
}
