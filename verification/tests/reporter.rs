use avp::finding::{Finding, Location};
use avp::gate::GateId;
use avp::finding::Severity;
use avp::reporter::{
    escape_data, escape_property, GithubActionsReporter, HumanReporter, JsonReporter, Reporter,
};

fn sample() -> Finding {
    Finding::error(
        GateId::BugAssumption,
        Location::line("src/lib.rs", 42),
        "missing BUG ASSUMPTION",
    )
}

fn run(r: &mut dyn Reporter, findings: &[Finding], finish: bool) -> String {
    let mut s = String::new();
    for f in findings {
        s.push_str(&r.emit(f));
    }
    if finish {
        s.push_str(&r.finalize());
    }
    s
}

#[test]
fn gh_reporter_emits_annotation() {
    let mut r = GithubActionsReporter::new();
    let s = run(&mut r, &[sample()], true);
    assert!(s.contains("::error file=src/lib.rs,line=42::"));
    assert!(s.contains("[bug-assumption]"));
    assert!(s.contains("AVP summary"));
}

#[test]
fn gh_reporter_escapes_special_chars() {
    let f = Finding::error(
        GateId::BugAssumption,
        Location::line("src/path,with:special.rs", 1),
        "msg with %percent",
    );
    let mut r = GithubActionsReporter::new();
    let s = run(&mut r, &[f], false);
    assert!(s.contains("path%2Cwith%3Aspecial.rs"));
    assert!(s.contains("%25percent"));
}

#[test]
fn human_reporter_uncolored() {
    let mut r = HumanReporter::new(false);
    let s = run(&mut r, &[sample()], true);
    assert!(s.contains("[error]"));
    assert!(s.contains("bug-assumption"));
}

#[test]
fn human_reporter_colored() {
    let mut r = HumanReporter::new(true);
    let s = run(&mut r, &[sample()], true);
    assert!(s.contains("\x1b[31m"));
}

#[test]
fn gh_lines_are_exact() {
    let mut r = GithubActionsReporter::new();
    let f = Finding::warning(GateId::UnsafeProof, Location::pin("a.rs", 3, 7), "x\ny");
    assert_eq!(r.emit(&f), "::warning file=a.rs,line=3,col=7::[unsafe-proof] x%0Ay\n");
    assert_eq!(r.emit(&sample()), "::error file=src/lib.rs,line=42::[bug-assumption] missing BUG ASSUMPTION\n");
    assert_eq!(r.finalize(), "::notice::AVP summary \u{2014} error=1 warning=1 notice=0\n");
}

#[test]
fn human_lines_are_exact() {
    let mut r = HumanReporter::new(false);
    let f = Finding::notice(GateId::DebugRemove, Location::file("b.rs"), "m");
    assert_eq!(r.emit(&f), "[notice] debug-remove b.rs: m\n");
    assert_eq!(r.emit(&sample()), "[error] bug-assumption src/lib.rs:42: missing BUG ASSUMPTION\n");
    assert_eq!(
        r.finalize(),
        "\u{2500}\u{2500} AVP summary: 1 error / 0 warning / 1 notice \u{2500}\u{2500}\n"
    );
}

#[test]
fn escaping_rules() {
    assert_eq!(escape_data("a%b\r\nc"), "a%25b%0D%0Ac");
    assert_eq!(escape_property("a:b,c%\n"), "a%3Ab%2Cc%25%0A");
    assert_eq!(escape_data("a:b,c"), "a:b,c");
}

fn json_document(f: &Finding) -> String {
    let mut doc = serde_json::Map::new();
    doc.insert("gate".to_string(), serde_json::Value::String(f.gate.as_kebab().to_string()));
    doc.insert(
        "severity".to_string(),
        serde_json::Value::String(f.severity.gh_keyword().to_string()),
    );
    doc.insert("message".to_string(), serde_json::Value::String(f.message.clone()));
    serde_json::Value::Object(doc).to_string()
}

#[test]
fn json_reporter_emits_json_lines() {
    let f = sample();
    let mut r = JsonReporter::new();
    let mut s = r.emit(&f, &json_document(&f));
    let c = r.finalize();
    let mut summary = serde_json::Map::new();
    summary.insert("kind".to_string(), serde_json::Value::String("summary".to_string()));
    summary.insert("error".to_string(), serde_json::Value::from(c.error));
    summary.insert("warning".to_string(), serde_json::Value::from(c.warning));
    summary.insert("notice".to_string(), serde_json::Value::from(c.notice));
    s.push_str(&serde_json::Value::Object(summary).to_string());
    s.push('\n');
    let lines: Vec<&str> = s.lines().collect();
    assert_eq!(lines.len(), 2);
    let parsed: serde_json::Value = serde_json::from_str(lines[0]).unwrap();
    assert_eq!(parsed["gate"], "bug-assumption");
    assert_eq!(parsed["severity"], "error");
    let summary: serde_json::Value = serde_json::from_str(lines[1]).unwrap();
    assert_eq!(summary["kind"], "summary");
    assert_eq!(summary["error"], 1);
}

#[test]
fn json_reporter_counts_by_severity() {
    let mut r = JsonReporter::new();
    let w = Finding::warning(GateId::ForbiddenCall, Location::file("a.rs"), "w");
    let n = Finding::notice(GateId::UnsafeProof, Location::file("b.rs"), "n");
    assert_eq!(r.emit(&w, "{}"), "{}\n");
    assert_eq!(r.emit(&w, "[1]"), "[1]\n");
    assert_eq!(r.emit(&n, ""), "\n");
    assert_eq!(r.emit(&sample(), "x"), "x\n");
    let c = r.finalize();
    assert_eq!((c.error, c.warning, c.notice), (1, 2, 1));
    assert_eq!(w.severity, Severity::Warning);
}
