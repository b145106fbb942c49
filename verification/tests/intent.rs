use avp::dates::{parse_iso_date, parse_rfc3339};
use avp::intent::{AgentId, IntentError, IntentFile};

fn day(s: &str) -> i32 {
    parse_iso_date(s).expect("valid date")
}

fn intent(
    agent: &str,
    branch: &str,
    opened_at: &str,
    files: &[&str],
    allows: &[&str],
    expires_after: Option<&str>,
) -> IntentFile {
    IntentFile::from_parts(
        AgentId::new(agent).expect("valid agent id"),
        branch.to_string(),
        "g".to_string(),
        "t".to_string(),
        parse_rfc3339(opened_at).expect("valid timestamp"),
        files.iter().map(|f| f.to_string()).collect(),
        allows.iter().map(|a| AgentId::new(a).expect("valid agent id")).collect(),
        None,
        expires_after.map(day),
    )
}

fn minimal() -> IntentFile {
    let mut f = IntentFile::from_parts(
        AgentId::new("agent-2026-05-01-T01").unwrap(),
        "agent/wire-avp-engine".to_string(),
        "Wire avp into PlausiDen-Engine CI.".to_string(),
        "cargo test".to_string(),
        parse_rfc3339("2026-05-01T20:00:00Z").unwrap(),
        vec![".github/workflows/avp.yml".to_string()],
        Vec::new(),
        None,
        None,
    );
    f.validate().unwrap();
    f
}

fn build(agent: &str, allows: &[&str]) -> IntentFile {
    let mut f = intent(agent, agent, "2026-05-01T00:00:00Z", &[], allows, None);
    f.validate().unwrap();
    f
}

fn build_with_files(agent: &str, files: &[&str]) -> IntentFile {
    let mut f = intent(agent, agent, "2026-05-01T00:00:00Z", files, &[], None);
    f.validate().unwrap();
    f
}

#[test]
fn agent_id_valid() {
    for s in ["a", "agent-2026-05-01-T01", "x_y"] {
        assert!(AgentId::new(s).is_ok(), "{s}");
    }
}

#[test]
fn agent_id_invalid() {
    for s in ["", " ", "has space", "tab\there", &"x".repeat(129)] {
        assert!(AgentId::new(s).is_err(), "{s}");
    }
}

#[test]
fn minimal_loads_and_validates() {
    let f = minimal();
    assert_eq!(f.agent_id.as_str(), "agent-2026-05-01-T01");
    assert!(f.compiled_globs.is_some());
    assert!(f.matches_path(".github/workflows/avp.yml"));
    assert!(!f.matches_path("src/lib.rs"));
}

#[test]
fn empty_branch_rejected() {
    let mut f = intent("a", "", "2026-05-01T20:00:00Z", &[], &[], None);
    let err = f.validate().unwrap_err();
    assert!(matches!(err, IntentError::EmptyField { field: "branch" }));
}

#[test]
fn invalid_branch_rejected() {
    let cases = ["with space", "/leading-slash", "trailing-slash/", "has..dots"];
    for branch in cases {
        let mut f = intent("a", branch, "2026-05-01T20:00:00Z", &[], &[], None);
        let err = f.validate().unwrap_err();
        assert!(matches!(err, IntentError::InvalidBranch(_)), "branch={branch}: got {err:?}");
    }
}

#[test]
fn intent_expiry_before_open_rejected() {
    let mut f = intent("a", "x", "2026-05-15T00:00:00Z", &[], &[], Some("2026-05-01"));
    let err = f.validate().unwrap_err();
    assert!(matches!(err, IntentError::ExpiryBeforeOpen { .. }));
}

#[test]
fn invalid_glob_rejected() {
    let mut f = intent("a", "x", "2026-05-01T00:00:00Z", &["[unclosed"], &[], None);
    let err = f.validate().unwrap_err();
    assert!(matches!(err, IntentError::Glob { .. }));
}

#[test]
fn glob_matches_subdir() {
    let f = build_with_files("a", &["crates/*/src/lib.rs"]);
    assert!(f.matches_path("crates/avp/src/lib.rs"));
    assert!(!f.matches_path("crates/avp/src/main.rs"));
}

#[test]
fn expiry_check_works() {
    let mut f = minimal();
    f.expires_after = Some(day("2026-06-01"));
    f.validate().unwrap();
    assert!(!f.is_expired(day("2026-05-15")));
    assert!(f.is_expired(day("2026-06-02")));
}

#[test]
fn overlap_allowed_when_either_side_lists_other() {
    let a = build("alpha", &[]);
    let b = build("beta", &["alpha"]);
    assert!(a.overlap_allowed_with(&b));
    assert!(b.overlap_allowed_with(&a));
}

#[test]
fn overlap_disallowed_by_default() {
    let a = build("alpha", &[]);
    let b = build("beta", &[]);
    assert!(!a.overlap_allowed_with(&b));
}

#[test]
fn pattern_overlap_finds_shared() {
    let a = build_with_files("a", &["x.rs", "y.rs"]);
    let b = build_with_files("b", &["y.rs", "z.rs"]);
    assert_eq!(a.pattern_overlap(&b), vec!["y.rs".to_owned()]);
}

#[test]
fn rfc3339_round_trip() {
    let f = minimal();
    // 2026-05-01T20:00:00Z
    assert_eq!(f.opened_at, 1_777_665_600_000_000_000i128);
}

#[test]
fn validate_is_idempotent() {
    let mut f = minimal();
    let before = f.clone();
    f.validate().unwrap();
    assert_eq!(f, before);
}

#[test]
fn iso_dates_parse_to_julian_days() {
    assert_eq!(parse_iso_date("2026-05-01"), Some(2_461_162));
    assert_eq!(parse_iso_date(" 2026-05-02 "), Some(2_461_163));
    assert_eq!(parse_iso_date("2026-13-01"), None);
    assert_eq!(parse_iso_date("yesterday"), None);
}

#[test]
fn rfc3339_rejects_garbage() {
    assert_eq!(parse_rfc3339("not a time"), None);
    assert_eq!(parse_rfc3339("1970-01-01T00:00:01Z"), Some(1_000_000_000));
}

#[test]
fn validate_twice_keeps_the_verdict() {
    let mut f = minimal();
    assert!(f.validate().is_ok());
    assert!(f.validate().is_ok());
    assert!(f.matches_path(".github/workflows/avp.yml"));
    assert_eq!(f.branch, "agent/wire-avp-engine");

    let mut g = intent("a", "has..dots", "2026-05-01T20:00:00Z", &["src/**"], &[], None);
    assert!(matches!(g.validate(), Err(IntentError::InvalidBranch(_))));
    assert!(matches!(g.validate(), Err(IntentError::InvalidBranch(_))));
    assert!(g.compiled_globs.is_none());
}
