use avp::finding::{Finding, Location, RatchetSuggestion, Severity};
use avp::gate::{GateId, UnknownGate};
use avp::newtype::{CrateName, RepoRelativePath, SignerEmail};
use avp::{CANONICAL_WORKFLOW, INTENT_FILE, RATCHET_FILE, VERSION};

#[test]
fn severity_gh_keyword_stable() {
    assert_eq!(Severity::Error.gh_keyword(), "error");
    assert_eq!(Severity::Warning.gh_keyword(), "warning");
    assert_eq!(Severity::Notice.gh_keyword(), "notice");
}

#[test]
fn only_error_is_failing() {
    assert!(Severity::Error.is_failing());
    assert!(!Severity::Warning.is_failing());
    assert!(!Severity::Notice.is_failing());
}

#[test]
fn location_constructors() {
    let f = Location::file("a.rs");
    assert_eq!(f.line, None);

    let l = Location::line("a.rs", 12);
    assert_eq!(l.line, Some(12));
    assert_eq!(l.column, None);

    let p = Location::pin("a.rs", 12, 5);
    assert_eq!(p.line, Some(12));
    assert_eq!(p.column, Some(5));
}

#[test]
fn finding_constructors() {
    let loc = Location::line("src/lib.rs", 42);
    let e = Finding::error(GateId::BugAssumption, loc.clone(), "missing");
    assert!(e.severity.is_failing());

    let w = Finding::warning(GateId::TestDensityAggregate, loc.clone(), "low");
    assert!(!w.severity.is_failing());

    let n = Finding::notice(GateId::ForbiddenCall, loc, "ratcheted");
    assert_eq!(n.severity, Severity::Notice);
}

#[test]
fn finding_with_suggestion_keeps_the_rest() {
    let f = Finding::error(GateId::BugAssumption, Location::line("src/a.rs", 3), "m");
    let s = RatchetSuggestion::new(GateId::BugAssumption, None, Some("src/a\\.rs".to_string()), "r".to_string());
    let g = f.clone().with_suggestion(s.clone());
    assert_eq!(g.gate, f.gate);
    assert_eq!(g.message, "m");
    assert_eq!(g.location, f.location);
    assert_eq!(g.suggested_ratchet, Some(s));
}

#[test]
fn all_gates_have_unique_kebab() {
    let mut seen = std::collections::HashSet::new();
    for g in GateId::ALL {
        assert!(seen.insert(g.as_kebab()), "duplicate kebab for {g:?}");
    }
}

#[test]
fn all_gates_round_trip() {
    for g in GateId::ALL {
        let s = g.to_string();
        let parsed: GateId = s.parse().expect("known kebab parses");
        assert_eq!(parsed, g);
    }
}

#[test]
fn unknown_gate_errors() {
    let err = "no-such-gate".parse::<GateId>().unwrap_err();
    assert_eq!(err.0, "no-such-gate");
}

#[test]
fn unknown_gate_message_lists_known_gates() {
    let err = UnknownGate("no-such".to_string());
    assert_eq!(
        err.to_string(),
        "unknown gate id: \"no-such\" (known: [\"bug-assumption\", \"forbidden-call\", \"debug-remove\", \"unsafe-proof\", \"test-density-aggregate\", \"test-density-per-fn\"])"
    );
}

#[test]
fn debug_remove_is_unique_unratchetable() {
    for g in GateId::ALL {
        if matches!(g, GateId::DebugRemove) {
            assert!(!g.ratchetable());
        } else {
            assert!(g.ratchetable(), "{} should be ratchetable", g.as_kebab());
        }
    }
}

#[test]
fn descriptions_are_non_empty() {
    for g in GateId::ALL {
        assert!(!g.description().is_empty());
    }
}

#[test]
fn description_texts_are_stable() {
    assert_eq!(
        GateId::BugAssumption.description(),
        "Public fns must have a `BUG ASSUMPTION:` annotation."
    );
    assert_eq!(
        GateId::TestDensityAggregate.description(),
        "Aggregate (tests / public_fns) ratio \u{2265} threshold."
    );
}

#[test]
fn lib_version_is_populated() {
    assert!(!VERSION.is_empty());
}

#[test]
fn canonical_paths_are_stable() {
    assert_eq!(RATCHET_FILE, "avp-ratchet.toml");
    assert_eq!(INTENT_FILE, ".avp-intent.toml");
    assert_eq!(CANONICAL_WORKFLOW, ".github/workflows/avp.yml");
}

#[test]
fn version_populated() {
    assert!(!VERSION.is_empty());
}

#[test]
fn crate_name_valid() {
    for n in ["avp", "avp-core", "engine_browser", "x", "abc123"] {
        assert!(CrateName::new(n).is_ok(), "{n} should be valid");
    }
}

#[test]
fn crate_name_invalid() {
    for n in ["", "1abc", "-foo", "foo bar", "foo!"] {
        assert!(CrateName::new(n).is_err(), "{n} should be invalid");
    }
}

#[test]
fn signer_email_valid() {
    for n in ["a@b.c", "william@plausiden.com", "x.y@example.co.uk"] {
        assert!(SignerEmail::new(n).is_ok(), "{n} should be valid");
    }
}

#[test]
fn signer_email_invalid() {
    for n in ["", "no-at", "@nolocal.com", "nodomain@", "no-dot@host"] {
        assert!(SignerEmail::new(n).is_err(), "{n} should be invalid");
    }
}

#[test]
fn repo_path_valid() {
    for n in ["src/lib.rs", "Cargo.toml", "a/b/c.rs"] {
        assert!(RepoRelativePath::new(n).is_ok(), "{n} should be valid");
    }
}

#[test]
fn repo_path_invalid() {
    for n in ["/abs/path", "../escape", "a/../b"] {
        assert!(RepoRelativePath::new(n).is_err(), "{n} should be invalid");
    }
}

#[test]
fn crate_name_round_trip_samples() {
    for n in ["A", "a-b_c", "Z9", "abcdefghijklmnopqrstuvwxyz-0123456789_ABCDEFGHIJKLMNOPQRSTUVWXYZ"] {
        let c = CrateName::new(n).expect("valid by construction");
        assert_eq!(c.as_str(), n);
    }
}

#[test]
fn repo_path_views_as_path() {
    let p = RepoRelativePath::new("src/lib.rs").unwrap();
    assert_eq!(p.as_path(), std::path::Path::new("src/lib.rs"));
    assert_eq!(p.as_path().file_name().and_then(|n| n.to_str()), Some("lib.rs"));
    assert_eq!(p.into_path_buf(), std::path::PathBuf::from("src/lib.rs"));
}

#[test]
fn from_str_parses_gates_and_agent_ids() {
    assert_eq!("unsafe-proof".parse::<GateId>().unwrap(), GateId::UnsafeProof);
    assert!("Unsafe-Proof".parse::<GateId>().is_err());
    let a: avp::intent::AgentId = "agent-1".parse().unwrap();
    assert_eq!(a.as_str(), "agent-1");
    assert!("has space".parse::<avp::intent::AgentId>().is_err());
}
