use avp::driver::DriverEvent;
use avp::host::SshTarget;
use avp::launch::{
    build_remote_command, build_ssh_args, control_socket_path, digest_line, launch_args,
    local_exit_event, shell_quote, ssh_exit_event, stderr_event,
};
use avp::fixture::{fixture_scenario, Scenario};
use avp::policy::PauseReason;

fn target() -> SshTarget {
    let mut t = SshTarget::new("vps.example.com", "/srv/plausiden/engine").unwrap();
    t.user = Some("william".into());
    t.port = Some(2222);
    t.identity_file = Some("/home/local/.ssh/id_ed25519_plaus".to_string());
    t.ssh_options.push("ProxyJump=jump.example".into());
    t
}

#[test]
fn shell_quote_round_trip() {
    assert_eq!(shell_quote("plain"), "'plain'");
    assert_eq!(shell_quote("with space"), "'with space'");
    assert_eq!(shell_quote("with'quote"), "'with'\\''quote'");
    assert_eq!(shell_quote(""), "''");
    assert_eq!(shell_quote("$(rm -rf /)"), "'$(rm -rf /)'");
}

#[test]
fn build_remote_command_basic() {
    let t = target();
    let cmd = build_remote_command(&t, "agent", "FIXTURE=happy", None);
    assert!(cmd.starts_with("cd '/srv/plausiden/engine' && exec 'agent' "));
    assert!(cmd.contains("--print"));
    assert!(cmd.contains("--output-format=stream-json"));
    assert!(cmd.contains("--append-system-prompt 'FIXTURE=happy'"));
    assert!(!cmd.contains("--resume"));
}

#[test]
fn build_remote_command_with_resume() {
    let t = target();
    let cmd = build_remote_command(&t, "agent", "p", Some("sess-123"));
    assert!(cmd.contains("--resume 'sess-123'"));
}

#[test]
fn build_remote_command_quotes_prompt_with_quotes() {
    let t = target();
    let cmd = build_remote_command(&t, "agent", "shell's prompt", None);
    assert!(cmd.contains("'shell'\\''s prompt'"));
}

#[test]
fn build_ssh_args_includes_multiplex_and_target() {
    let t = target();
    let socket = "/tmp/x.sock";
    let args = build_ssh_args(&t, "agent", "p", None, socket);
    assert!(args.contains(&"ControlMaster=auto".to_owned()));
    assert!(args.contains(&"ControlPersist=10m".to_owned()));
    assert!(args.iter().any(|a| a.contains("ControlPath=/tmp/x.sock")));
    assert!(args.contains(&"BatchMode=yes".to_owned()));
    assert!(args.contains(&"ProxyJump=jump.example".to_owned()));
    assert!(args.contains(&"-p".to_owned()));
    assert!(args.contains(&"2222".to_owned()));
    assert!(args.contains(&"-i".to_owned()));
    assert!(args.iter().any(|a| a.ends_with("id_ed25519_plaus")));
    assert!(args.contains(&t.user_at_host()));
    let dash_pos = args.iter().position(|a| a == "--").unwrap();
    assert!(dash_pos < args.len() - 1, "remote command should follow --");
}

#[test]
fn build_ssh_args_without_port_or_key() {
    let mut t = SshTarget::new("h", "/x").unwrap();
    t.ssh_options.clear();
    let args = build_ssh_args(&t, "agent", "p", None, "/tmp/y.sock");
    assert!(!args.iter().any(|a| a == "-p"));
    assert!(!args.iter().any(|a| a == "-i"));
    assert!(args.contains(&"h".to_owned()));
}

#[test]
fn control_socket_path_is_stable_per_target() {
    let t = target();
    let a = control_socket_path(&t);
    let b = control_socket_path(&t);
    assert_eq!(a, b);
    assert!(a.starts_with("/tmp/conductor-ssh-"));
    assert!(a.ends_with(".sock"));
}

#[test]
fn control_socket_path_varies_with_target() {
    let mut t1 = target();
    let mut t2 = target();
    t2.host = "other.example".into();
    let s1 = control_socket_path(&t1);
    let s2 = control_socket_path(&t2);
    assert_ne!(s1, s2);
    t1.control_socket = Some("/tmp/explicit.sock".to_string());
    assert_eq!(control_socket_path(&t1), "/tmp/explicit.sock");
}

#[test]
fn launch_arguments() {
    assert_eq!(
        launch_args("sys", Some("id-1")),
        vec![
            "--print",
            "--output-format=stream-json",
            "--include-partial-messages",
            "--append-system-prompt",
            "sys",
            "--resume",
            "id-1"
        ]
    );
    assert_eq!(launch_args("sys", None).len(), 5);
}

#[test]
fn exit_codes_map_to_events() {
    assert!(matches!(local_exit_event("agent", Some(0)), DriverEvent::Done));
    assert!(matches!(local_exit_event("agent", Some(1)), DriverEvent::Paused { reason: PauseReason::Permission }));
    assert!(matches!(local_exit_event("agent", Some(2)), DriverEvent::Failed { ref reason } if reason == "agent: invalid arguments (exit 2)"));
    assert!(matches!(local_exit_event("agent", Some(-3)), DriverEvent::Failed { ref reason } if reason == "agent exited -3"));
    assert!(matches!(ssh_exit_event("agent", Some(255)), DriverEvent::Paused { reason: PauseReason::Network }));
    assert!(matches!(ssh_exit_event("agent", Some(7)), DriverEvent::Failed { ref reason } if reason == "ssh/agent exited 7"));
}

#[test]
fn stderr_lines_become_log_events() {
    assert!(matches!(stderr_event("boom", false), DriverEvent::Log { ref line } if line == "(stderr) boom"));
    assert!(matches!(stderr_event("boom", true), DriverEvent::Log { ref line } if line == "(ssh-stderr) boom"));
}

#[test]
fn digest_line_of_empty_input() {
    let line = digest_line(b"", "empty.txt");
    assert_eq!(
        line,
        "af1349b9f5f9a1a6a0404dea36dcc9499bcb25c9adc112b7cc9a93cae41f3262  empty.txt"
    );
}

#[test]
fn digest_line_differs_with_content() {
    let a = digest_line(b"abc", "f");
    let b = digest_line(b"abd", "f");
    assert_eq!(a.len(), 64 + 3);
    assert_ne!(a, b);
    assert!(a.ends_with("  f"));
}

fn args(v: &[&str]) -> Vec<String> {
    v.iter().map(|s| s.to_string()).collect()
}

#[test]
fn fixture_scenario_reads_the_prompt_token() {
    assert_eq!(
        fixture_scenario(&args(&["x", "--append-system-prompt", "a FIXTURE=hang b"])),
        Scenario::Hang
    );
    assert_eq!(
        fixture_scenario(&args(&["--append-system-prompt", "FIXTURE=permission"])),
        Scenario::Permission
    );
    assert_eq!(
        fixture_scenario(&args(&["--append-system-prompt", "  FIXTURE=rate_limit\t"])),
        Scenario::RateLimit
    );
    assert_eq!(
        fixture_scenario(&args(&["--append-system-prompt", "FIXTURE=invalid_args"])),
        Scenario::InvalidArgs
    );
}

#[test]
fn fixture_scenario_defaults_to_happy() {
    assert_eq!(fixture_scenario(&args(&["x"])), Scenario::Happy);
    assert_eq!(fixture_scenario(&args(&["--append-system-prompt"])), Scenario::Happy);
    assert_eq!(
        fixture_scenario(&args(&["--append-system-prompt", "FIXTURE=unknown"])),
        Scenario::Happy
    );
    assert_eq!(
        fixture_scenario(&args(&["--append-system-prompt", "no token here"])),
        Scenario::Happy
    );
}

#[test]
fn launch_args_includes_required_flags() {
    let args = launch_args("hi", None);
    assert!(args.iter().any(|a| a == "--print"));
    assert!(args.iter().any(|a| a == "--output-format=stream-json"));
    assert!(args.iter().any(|a| a == "--append-system-prompt"));
    assert!(args.iter().any(|a| a == "hi"));
    assert!(!args.iter().any(|a| a == "--resume"));
}

#[test]
fn launch_args_with_resume_id() {
    let args = launch_args("hi", Some("sess-123"));
    let mut iter = args.iter();
    let resume_pos = iter.position(|a| a == "--resume");
    assert!(resume_pos.is_some(), "{args:?}");
    assert_eq!(iter.next().map(String::as_str), Some("sess-123"));
}

/// Reads a word the way a POSIX shell reads single-quoted runs and
/// backslash escapes; anything else is refused.
fn sh_read(w: &str) -> Option<String> {
    let mut out = String::new();
    let mut chars = w.chars();
    let mut in_quote = false;
    while let Some(c) = chars.next() {
        if in_quote {
            if c == '\'' {
                in_quote = false;
            } else {
                out.push(c);
            }
        } else if c == '\'' {
            in_quote = true;
        } else if c == '\\' {
            out.push(chars.next()?);
        } else {
            return None;
        }
    }
    if in_quote {
        None
    } else {
        Some(out)
    }
}

#[test]
fn shell_quote_reads_back() {
    for s in ["", "plain", "with'quote", "''", "a'b'c", "$(rm -rf /)", "back\\slash", "tab\tnew\nline", "é'ü"] {
        assert_eq!(sh_read(&shell_quote(s)).as_deref(), Some(s));
    }
}
