use avp::config::{ConfigError, HostsConfig, RawConfig, RawHost, RawRule};
use avp::host::{Host, HostError, SshTarget};

fn ssh(name: &str, host: &str, workdir: &str) -> RawHost {
    RawHost {
        name: name.to_string(),
        local: false,
        host: Some(host.to_string()),
        user: None,
        port: None,
        identity_file: None,
        remote_workdir: Some(workdir.to_string()),
        ssh_options: Vec::new(),
        control_socket: None,
    }
}

fn rule(pattern: &str, host: &str) -> RawRule {
    RawRule { pattern: pattern.to_string(), host: host.to_string() }
}

fn config(default: &str, hosts: Vec<RawHost>, rules: Vec<RawRule>) -> Result<HostsConfig, ConfigError> {
    RawConfig { default: default.to_string(), hosts, rules }.validate_and_compile()
}

#[test]
fn local_default() {
    let h = Host::default();
    assert!(matches!(h, Host::Local));
    assert!(!h.is_remote());
    assert_eq!(h.label(), "local");
}

#[test]
fn ssh_target_user_at_host() {
    let mut t = SshTarget::new("vps.example.com", "/srv/x").unwrap();
    assert_eq!(t.user_at_host(), "vps.example.com");
    t.user = Some("william".into());
    assert_eq!(t.user_at_host(), "william@vps.example.com");
}

#[test]
fn ssh_target_display_with_port() {
    let mut t = SshTarget::new("h", "/x").unwrap();
    t.port = Some(2222);
    assert_eq!(t.to_string(), "h:2222");
    t.user = Some("u".into());
    assert_eq!(t.to_string(), "u@h:2222");
}

#[test]
fn empty_host_rejected() {
    let err = SshTarget::new("", "/x").unwrap_err();
    assert!(matches!(err, HostError::EmptyHost));
}

#[test]
fn whitespace_host_rejected() {
    let err = SshTarget::new("bad host", "/x").unwrap_err();
    assert!(matches!(err, HostError::InvalidHost(_)));
}

#[test]
fn relative_workdir_rejected() {
    let err = SshTarget::new("h", "relative/path").unwrap_err();
    assert!(matches!(err, HostError::WorkdirNotAbsolute(_)));
}

#[test]
fn parent_traversal_workdir_rejected() {
    let err = SshTarget::new("h", "/srv/../etc").unwrap_err();
    assert!(matches!(err, HostError::WorkdirParentTraversal(_)));
}

#[test]
fn injectable_option_rejected() {
    let mut t = SshTarget::new("h", "/x").unwrap();
    t.ssh_options.push("foo\ninject".into());
    let err = t.validate().unwrap_err();
    assert!(matches!(err, HostError::InjectableSshOption(_)));
}

#[test]
fn invalid_user_rejected() {
    let mut t = SshTarget::new("h", "/x").unwrap();
    t.user = Some("user with space".into());
    let err = t.validate().unwrap_err();
    assert!(matches!(err, HostError::InvalidUser(_)));
}

#[test]
fn host_label_includes_target() {
    let t = SshTarget::new("vps.example", "/srv/x").unwrap();
    let h = Host::Ssh(t);
    assert!(h.label().starts_with("ssh:"));
    assert!(h.is_remote());
    assert_eq!(h.label(), "ssh:vps.example");
}

#[test]
fn empty_file_loads_local_only() {
    let cfg = config("local", Vec::new(), Vec::new()).unwrap();
    assert_eq!(cfg.host_names(), vec!["local"]);
    assert_eq!(cfg.default, "local");
    assert!(cfg.rules.is_empty());
}

#[test]
fn local_only_static() {
    let cfg = HostsConfig::local_only();
    assert!(matches!(cfg.get("local"), Some(Host::Local)));
}

#[test]
fn full_config_round_trips() {
    let mut vps = ssh("vps", "vps.example.com", "/srv/x");
    vps.user = Some("agent".into());
    vps.port = Some(22);
    vps.ssh_options = vec!["ServerAliveInterval=30".into()];
    let cfg = config("vps", vec![vps], vec![rule("tests-*", "vps")]).unwrap();
    assert_eq!(cfg.default, "vps");
    assert_eq!(cfg.hosts.len(), 2);
    let Host::Ssh(t) = cfg.get("vps").unwrap() else {
        panic!("expected Ssh");
    };
    assert_eq!(t.host, "vps.example.com");
    assert_eq!(t.user.as_deref(), Some("agent"));
    assert_eq!(t.port, Some(22));
    assert_eq!(t.ssh_options, vec!["ServerAliveInterval=30".to_owned()]);
}

#[test]
fn missing_default_rejected() {
    let mut other = ssh("other", "x", "/x");
    other.local = true;
    other.host = None;
    other.remote_workdir = None;
    let err = config("vps", vec![other], Vec::new()).unwrap_err();
    assert!(matches!(err, ConfigError::UnknownDefault(_)));
}

#[test]
fn host_missing_required_field_rejected() {
    let mut h = ssh("vps", "x.example", "/x");
    h.remote_workdir = None;
    let err = config("local", vec![h], Vec::new()).unwrap_err();
    assert!(matches!(err, ConfigError::MissingField { field: "remote_workdir", .. }));
}

#[test]
fn duplicate_host_rejected() {
    let err = config(
        "local",
        vec![ssh("vps", "x.example", "/srv/x"), ssh("vps", "y.example", "/srv/y")],
        Vec::new(),
    )
    .unwrap_err();
    assert!(matches!(err, ConfigError::DuplicateHost(_)));
}

#[test]
fn unknown_rule_host_rejected() {
    let err = config("local", Vec::new(), vec![rule("x-*", "ghost")]).unwrap_err();
    assert!(matches!(err, ConfigError::UnknownRuleHost { .. }));
}

#[test]
fn rule_glob_compile_failure() {
    let err = config("local", Vec::new(), vec![rule("[unclosed", "local")]).unwrap_err();
    assert!(matches!(err, ConfigError::Glob { .. }));
}

#[test]
fn empty_name_and_bad_ssh_rejected() {
    let err = config("local", vec![ssh("", "x", "/x")], Vec::new()).unwrap_err();
    assert!(matches!(err, ConfigError::EmptyName));
    let err = config("local", vec![ssh("vps", "bad host", "/x")], Vec::new()).unwrap_err();
    assert!(matches!(err, ConfigError::Ssh { .. }));
}

fn routing_config() -> HostsConfig {
    config(
        "local",
        vec![ssh("vps", "vps.example.com", "/srv/x"), ssh("macbook", "192.168.1.42", "/Users/x/y")],
        vec![rule("browser-*", "macbook"), rule("tests-*", "vps")],
    )
    .unwrap()
}

#[test]
fn resolve_first_matching_rule_wins() {
    let cfg = routing_config();
    assert!(matches!(cfg.resolve("browser-engine"), Host::Ssh(t) if t.host == "192.168.1.42"));
    assert!(matches!(cfg.resolve("tests-fast"), Host::Ssh(t) if t.host == "vps.example.com"));
    assert!(matches!(cfg.resolve("anything-else"), Host::Local));
    assert_eq!(cfg.resolve_name("browser-engine"), "macbook");
    assert_eq!(cfg.resolve_name("anything-else"), "local");
}

#[test]
fn resolve_falls_back_to_default_when_no_rule_matches() {
    let cfg = config("vps", vec![ssh("vps", "v.example", "/srv/x")], Vec::new()).unwrap();
    let h = cfg.resolve("anything");
    assert!(matches!(h, Host::Ssh(t) if t.host == "v.example"));
}

#[test]
fn host_names_are_sorted() {
    let cfg = config("local", vec![ssh("zeta", "z.example", "/z"), ssh("alpha", "a.example", "/a")], Vec::new()).unwrap();
    assert_eq!(cfg.host_names(), vec!["alpha", "local", "zeta"]);
}

#[test]
fn local_may_be_shadowed_only_as_local() {
    let mut l = ssh("local", "x", "/x");
    l.local = true;
    l.host = None;
    l.remote_workdir = None;
    let cfg = config("local", vec![l], Vec::new()).unwrap();
    assert_eq!(cfg.host_names(), vec!["local"]);
    let err = config("local", vec![ssh("local", "x.example", "/x")], Vec::new()).unwrap_err();
    assert!(matches!(err, ConfigError::DuplicateHost(_)));
}

#[test]
fn ssh_target_new_errors_carry_the_value() {
    assert_eq!(SshTarget::new("", "/x").unwrap_err(), HostError::EmptyHost);
    assert_eq!(SshTarget::new("bad host", "/x").unwrap_err(), HostError::InvalidHost("bad host".to_string()));
    assert_eq!(
        SshTarget::new("h", "relative/path").unwrap_err(),
        HostError::WorkdirNotAbsolute("relative/path".to_string())
    );
    assert_eq!(
        SshTarget::new("h", "/srv/../etc").unwrap_err(),
        HostError::WorkdirParentTraversal("/srv/../etc".to_string())
    );
}
