use avp::commands::{
    apply_ratchet, any_error, elide, explain, preflight, ratchet_rows, ratchet_one, resolve_format,
    stub_message, use_color, validated_line, version_tag, OutputFormat, NOT_IMPLEMENTED_EXIT,
};
use avp::dates::parse_iso_date;
use avp::finding::{Finding, Location, Severity};
use avp::gate::GateId;
use avp::newtype::CrateName;
use avp::ratchet::{RatchetEntry, RatchetError, RatchetFile};

fn day(s: &str) -> i32 {
    parse_iso_date(s).expect("valid date")
}

fn entry(gate: GateId, crate_scope: Option<&str>, file: Option<&str>, reason: &str, opened: &str, expires: &str) -> RatchetEntry {
    RatchetEntry::new(
        gate,
        crate_scope.map(str::to_string),
        file.map(str::to_string),
        reason.to_string(),
        "a@b.com".to_string(),
        day(opened),
        day(expires),
    )
}

#[test]
fn missing_file_is_empty_not_error() {
    let f = RatchetFile::default();
    assert!(f.entries.is_empty());
}

#[test]
fn minimal_well_formed_loads() {
    let mut r = RatchetFile::new(vec![entry(GateId::BugAssumption, None, None, "x", "2026-01-01", "2026-12-31")]);
    r.validate().unwrap();
    assert_eq!(r.entries.len(), 1);
    assert_eq!(r.entries[0].gate, GateId::BugAssumption);
    assert_eq!(r.entries[0].crate_scope, None);
}

#[test]
fn missing_reason_rejected() {
    let mut r = RatchetFile::new(vec![entry(GateId::BugAssumption, None, None, "   ", "2026-01-01", "2026-12-31")]);
    let err = r.validate().unwrap_err();
    assert!(matches!(err, RatchetError::EmptyReason { idx: 0 }));
}

#[test]
fn ratchet_expiry_before_open_rejected() {
    let mut r = RatchetFile::new(vec![entry(GateId::BugAssumption, None, None, "x", "2026-12-31", "2026-01-01")]);
    let err = r.validate().unwrap_err();
    assert!(matches!(err, RatchetError::ExpiryBeforeOpen { idx: 0, .. }));
}

#[test]
fn debug_remove_not_ratchetable() {
    let mut r = RatchetFile::new(vec![entry(GateId::DebugRemove, None, None, "x", "2026-01-01", "2026-12-31")]);
    let err = r.validate().unwrap_err();
    assert!(matches!(err, RatchetError::GateNotRatchetable { idx: 0, gate: GateId::DebugRemove }));
}

#[test]
fn invalid_regex_rejected() {
    let mut r = RatchetFile::new(vec![entry(GateId::BugAssumption, None, Some("[unclosed"), "x", "2026-01-01", "2026-12-31")]);
    let err = r.validate().unwrap_err();
    assert!(matches!(err, RatchetError::Regex { idx: 0, .. }));
}

#[test]
fn invalid_signer_and_crate_rejected() {
    let mut bad_signer = RatchetEntry::new(GateId::BugAssumption, None, None, "x".into(), "nobody".into(), day("2026-01-01"), day("2026-12-31"));
    assert!(matches!(bad_signer.validate(3).unwrap_err(), RatchetError::Signer { idx: 3, .. }));
    let mut bad_crate = entry(GateId::BugAssumption, Some("Bad Crate"), None, "x", "2026-01-01", "2026-12-31");
    assert!(matches!(bad_crate.validate(1).unwrap_err(), RatchetError::Crate { idx: 1, .. }));
}

#[test]
fn matches_gate_only() {
    let mut e = entry(GateId::BugAssumption, None, None, "x", "2026-01-01", "2026-12-31");
    e.validate(0).unwrap();
    assert!(e.matches(GateId::BugAssumption, None, None));
    assert!(!e.matches(GateId::ForbiddenCall, None, None));
}

#[test]
fn matches_with_crate_scope() {
    let mut e = entry(GateId::BugAssumption, Some("engine-fs"), None, "x", "2026-01-01", "2026-12-31");
    e.validate(0).unwrap();
    let fs = CrateName::new("engine-fs").unwrap();
    let other = CrateName::new("engine-net").unwrap();
    assert!(e.matches(GateId::BugAssumption, Some(&fs), None));
    assert!(!e.matches(GateId::BugAssumption, Some(&other), None));
    assert!(!e.matches(GateId::BugAssumption, None, None));
}

#[test]
fn matches_with_file_regex() {
    let mut e = entry(GateId::BugAssumption, None, Some("^src/legacy/"), "x", "2026-01-01", "2026-12-31");
    e.validate(0).unwrap();
    assert!(e.matches(GateId::BugAssumption, None, Some("src/legacy/api.rs")));
    assert!(!e.matches(GateId::BugAssumption, None, Some("src/modern.rs")));
    assert!(!e.matches(GateId::BugAssumption, None, None));
}

#[test]
fn expiry_partition() {
    let mut f = RatchetFile::new(vec![
        entry(GateId::BugAssumption, None, None, "expired", "2025-01-01", "2025-12-31"),
        entry(GateId::ForbiddenCall, None, None, "active", "2026-01-01", "2027-01-01"),
    ]);
    f.validate().unwrap();
    let now = day("2026-06-01");
    assert_eq!(f.active(now).len(), 1);
    assert_eq!(f.expired(now).len(), 1);
}

#[test]
fn covers_skips_expired() {
    let mut f = RatchetFile::new(vec![entry(GateId::BugAssumption, None, None, "x", "2025-01-01", "2025-12-31")]);
    f.validate().unwrap();
    let now = day("2026-06-01");
    assert!(!f.covers(GateId::BugAssumption, None, None, now));
}

#[test]
fn matches_is_strict_on_gate_id() {
    for gate in GateId::ALL {
        if !gate.ratchetable() {
            continue;
        }
        let mut e = entry(gate, None, None, "x", "2026-01-01", "2026-12-31");
        e.validate(0).unwrap();
        for other in GateId::ALL {
            assert_eq!(e.matches(other, None, None), other == gate);
        }
    }
}

#[test]
fn expiry_is_inclusive() {
    let e = entry(GateId::BugAssumption, None, None, "x", "2026-01-01", "2026-12-31");
    assert!(!e.is_expired(day("2026-12-31")));
    assert!(e.is_expired(day("2027-01-01")));
    assert_eq!(e.days_until_expiry(day("2026-12-01")), 30);
    assert_eq!(e.days_open(day("2026-01-11")), 10);
}

#[test]
fn elide_short_unchanged() {
    assert_eq!(elide("hi", 10), "hi");
}

#[test]
fn elide_long_shortens() {
    let s = elide("aaaaaaaaaaaaaaaaaaaa", 5);
    assert!(s.ends_with('\u{2026}'));
    assert_eq!(s.chars().count(), 5);
}

#[test]
fn explain_unknown_gate_errors() {
    let r = explain("no-such");
    assert!(r.is_err());
}

#[test]
fn explain_known_gate() {
    assert_eq!(
        explain("debug-remove").unwrap(),
        "debug-remove\n  DEBUG-REMOVE markers must be stripped before merge.\n\nRatchetable: false\nDoctrine: PlausiDen-AVP-Doctrine/AVP2_PROTOCOL.md\n"
    );
}

#[test]
fn format_resolution() {
    assert_eq!(resolve_format(OutputFormat::Auto, true), OutputFormat::GithubActions);
    assert_eq!(resolve_format(OutputFormat::Auto, false), OutputFormat::Human);
    assert_eq!(resolve_format(OutputFormat::Json, true), OutputFormat::Json);
    assert!(use_color(false, false));
    assert!(!use_color(true, false));
    assert!(!use_color(false, true));
}

#[test]
fn ratchet_downgrades_covered_errors_only() {
    let mut f = RatchetFile::new(vec![entry(GateId::BugAssumption, None, Some("^src/legacy/"), "x", "2026-01-01", "2026-12-31")]);
    f.validate().unwrap();
    let now = day("2026-06-01");
    let findings = vec![
        Finding::error(GateId::BugAssumption, Location::line("src/legacy/a.rs", 1), "m1"),
        Finding::error(GateId::BugAssumption, Location::line("src/new.rs", 2), "m2"),
        Finding::warning(GateId::BugAssumption, Location::line("src/legacy/b.rs", 3), "m3"),
        Finding::error(GateId::ForbiddenCall, Location::line("src/legacy/c.rs", 4), "m4"),
    ];
    let scopes = vec![None, None, None, None];
    let out = apply_ratchet(findings, &f, &scopes, now);
    assert_eq!(out[0].severity, Severity::Notice);
    assert_eq!(out[0].message, "[ratcheted] m1");
    assert_eq!(out[1].severity, Severity::Error);
    assert_eq!(out[1].message, "m2");
    assert_eq!(out[2].severity, Severity::Warning);
    assert_eq!(out[3].severity, Severity::Error);
    assert!(any_error(&out));
    let later = day("2027-06-01");
    let again = ratchet_one(Finding::error(GateId::BugAssumption, Location::line("src/legacy/a.rs", 1), "m1"), &f, None, later);
    assert_eq!(again.severity, Severity::Error);
    assert!(!any_error(&vec![Finding::notice(GateId::BugAssumption, Location::file("x"), "n")]));
}

#[test]
fn preflight_lines() {
    let f = RatchetFile::new(vec![
        entry(GateId::BugAssumption, None, None, "old \"one\"", "2025-01-01", "2025-12-31"),
        entry(GateId::ForbiddenCall, None, None, "soon", "2026-01-01", "2026-06-10"),
        entry(GateId::UnsafeProof, None, None, "later", "2026-01-01", "2027-01-01"),
    ]);
    let now = day("2026-06-01");
    let p = preflight(&f, now, 14);
    assert!(p.failed);
    assert_eq!(p.errors, vec!["::error::expired ratchet: gate=bug-assumption signed_by=a@b.com reason=\"old \\\"one\\\"\"".to_string()]);
    assert_eq!(p.warnings, vec!["::warning::ratchet expires in 9d: gate=forbidden-call signed_by=a@b.com".to_string()]);
    assert_eq!(p.notices, vec!["::notice::ratchet active (214d left): gate=unsafe-proof signed_by=a@b.com".to_string()]);
    let clean = RatchetFile::new(vec![entry(GateId::UnsafeProof, None, None, "later", "2026-01-01", "2027-01-01")]);
    assert!(!preflight(&clean, now, 14).failed);
}

#[test]
fn ratchet_listing_rows() {
    let f = RatchetFile::new(vec![
        entry(GateId::BugAssumption, Some("engine-fs"), None, "old", "2025-01-01", "2025-12-31"),
        entry(GateId::ForbiddenCall, None, Some("^src/"), &"r".repeat(70), "2026-01-01", "2026-06-10"),
    ]);
    let now = day("2026-06-01");
    let active = ratchet_rows(&f, now, false);
    assert_eq!(active.len(), 1);
    assert_eq!(active[0].gate, "forbidden-call");
    assert_eq!(active[0].crate_scope, "-");
    assert_eq!(active[0].file, "^src/");
    assert_eq!(active[0].days_left, "9");
    assert_eq!(active[0].reason.chars().count(), 60);
    let all = ratchet_rows(&f, now, true);
    assert_eq!(all.len(), 2);
    assert_eq!(all[0].crate_scope, "engine-fs");
    assert_eq!(all[0].days_left, "-152 (expired)");
}

#[test]
fn cli_texts() {
    assert_eq!(validated_line("avp-ratchet.toml", 2), "avp-ratchet.toml: 2 override(s) \u{2014} valid");
    assert_eq!(stub_message("avp drift"), "avp: avp drift is not implemented yet (v0.1.0-dev). See task tracker in PlausiDen-AVP-Doctrine.");
    assert_eq!(NOT_IMPLEMENTED_EXIT, 64);
    assert_eq!(version_tag(), "v0.1.0");
}

#[test]
fn ratchet_validate_is_idempotent() {
    let mut ok = RatchetFile::new(vec![entry(GateId::BugAssumption, None, Some("src/.*"), "x", "2026-01-01", "2026-12-31")]);
    ok.validate().unwrap();
    ok.validate().unwrap();
    assert_eq!(ok.entries.len(), 1);
    assert_eq!(ok.entries[0].reason, "x");

    let mut bad = RatchetFile::new(vec![
        entry(GateId::BugAssumption, None, None, "fine", "2026-01-01", "2026-12-31"),
        entry(GateId::DebugRemove, None, None, "x", "2026-01-01", "2026-12-31"),
    ]);
    assert!(matches!(bad.validate(), Err(RatchetError::GateNotRatchetable { idx: 1, .. })));
    assert!(matches!(bad.validate(), Err(RatchetError::GateNotRatchetable { idx: 1, .. })));
}

#[test]
fn ratchet_errors_carry_their_values() {
    let mut r = RatchetFile::new(vec![entry(GateId::BugAssumption, None, None, "x", "2026-12-31", "2026-01-01")]);
    match r.validate() {
        Err(RatchetError::ExpiryBeforeOpen { idx: 0, opened, expires_after }) => {
            assert_eq!(opened, day("2026-12-31"));
            assert_eq!(expires_after, day("2026-01-01"));
        }
        other => panic!("unexpected {other:?}"),
    }
}
