use avp::drift::{
    filed_line, issue_title, render_issue_body, render_markdown, sibling_candidate, sorted_names,
    summary_line, table_rows, DriftStatus, PortfolioDrift, SiblingDrift,
};
use avp::install::{canonical_files, plan, FilePlan};

fn plans(existing: Vec<Option<String>>) -> Vec<FilePlan> {
    plan(&canonical_files("v0.1.0"), &existing)
}

fn installed() -> Vec<Option<String>> {
    canonical_files("v0.1.0").into_iter().map(|(_, c)| Some(c)).collect()
}

fn sibling(name: &str, existing: Vec<Option<String>>) -> SiblingDrift {
    SiblingDrift::scanned(format!("/p/{name}"), name.to_string(), plans(existing))
}

#[test]
fn discover_skips_hidden_and_doctrine() {
    assert!(sibling_candidate("PlausiDen-Engine"));
    assert!(!sibling_candidate(".hidden"));
    assert!(!sibling_candidate("PlausiDen-AVP-Doctrine"));
    assert_eq!(
        sorted_names(vec!["zeta".into(), "alpha".into(), "Beta".into(), "alphabet".into()]),
        vec!["Beta", "alpha", "alphabet", "zeta"]
    );
}

#[test]
fn missing_files_classify_as_missing() {
    assert_eq!(sibling("sib", vec![None; 6]).status, DriftStatus::Missing);
}

#[test]
fn diverged_files_classify_as_diverged() {
    let mut existing = vec![None; 6];
    existing[0] = Some("name: not-the-canonical\n".into());
    assert_eq!(sibling("sib", existing).status, DriftStatus::Diverged);
}

#[test]
fn clean_classifies_as_clean() {
    let s = sibling("sib", installed());
    assert_eq!(s.status, DriftStatus::Clean);
    assert!(!s.status.is_drift());
    assert_eq!(s.status.label(), "clean");
}

#[test]
fn portfolio_aggregates() {
    let p = PortfolioDrift::new(vec![sibling("alpha", vec![None; 6]), sibling("beta", installed())]);
    let (clean, missing, diverged) = p.counts();
    assert_eq!(clean, 1);
    assert_eq!(missing, 1);
    assert_eq!(diverged, 0);
    assert_eq!(p.drifted().len(), 1);
    assert_eq!(p.drifted()[0].name, "alpha");
    assert_eq!(summary_line(&p), "\nportfolio: 1 clean, 1 missing, 0 diverged (2 total)\n");
}

#[test]
fn markdown_includes_summary_and_table() {
    let p = PortfolioDrift::new(vec![sibling("alpha", vec![None; 6])]);
    let md = render_markdown(&p);
    assert!(md.contains("# AVP portfolio drift report"));
    assert!(md.contains("alpha"));
    assert!(md.contains("missing"));
    assert!(md.ends_with("|---|---|---|---|\n| `alpha` | missing | 6 | 0 |\n"));
}

#[test]
fn issue_text() {
    let mut existing = installed();
    existing[1] = None;
    existing[2] = Some("x".into());
    let s = sibling("engine", existing);
    assert_eq!(issue_title(&s), "[avp-drift] engine diverges from canonical");
    let body = render_issue_body(&s);
    assert!(body.starts_with("Filed automatically by `avp drift --open-issues`.\n\nStatus: **diverged**\n"));
    assert!(body.contains("- \u{274c} **missing** `avp-ratchet.toml`\n"));
    assert!(body.contains("- \u{26a0}\u{fe0f}  **diverged** `deny.toml`\n"));
    assert!(body.contains("- \u{2705}  identical `clippy.toml`\n"));
    assert_eq!(filed_line(3), "filed 3 drift issue(s)\n");
    let rows = table_rows(&PortfolioDrift::new(vec![s]));
    assert_eq!(rows, vec![("engine".to_string(), "diverged".to_string(), "1".to_string(), "1".to_string())]);
}
