use avp::install::{
    apply, blocker_report, canonical_files, dry_run_report, plan, prefix_lines, render_plan,
    replace_all, summary_line, FilePlan,
};

fn names(files: &[(String, String)]) -> Vec<String> {
    files.iter().map(|(p, _)| p.clone()).collect()
}

#[test]
fn canonical_files_substitutes_version() {
    let files = canonical_files("v0.9.9");
    let workflow = files
        .iter()
        .find(|(p, _)| p.ends_with("avp.yml"))
        .map(|(_, c)| c)
        .unwrap();
    assert!(workflow.contains("v0.9.9"), "{workflow}");
    assert!(!workflow.contains("{{VERSION}}"));
}

#[test]
fn canonical_file_set_is_stable() {
    let files = canonical_files("v0.1.0");
    assert_eq!(
        names(&files),
        vec![
            ".github/workflows/avp.yml",
            "avp-ratchet.toml",
            "deny.toml",
            "clippy.toml",
            "rustfmt.toml",
            "rust-toolchain.toml"
        ]
    );
}

#[test]
fn replace_all_replaces_every_occurrence() {
    assert_eq!(replace_all("a{{X}}b{{X}}", "{{X}}", "1"), "a1b1");
    assert_eq!(replace_all("aaa", "aa", "b"), "ba");
    assert_eq!(replace_all("none", "zz", "y"), "none");
}

fn plans_for(existing: Vec<Option<String>>) -> Vec<FilePlan> {
    let files = canonical_files("v0.1.0");
    plan(&files, &existing)
}

#[test]
fn plan_creates_when_absent() {
    let plans = plans_for(vec![None; 6]);
    for p in &plans {
        assert!(matches!(p, FilePlan::Create { .. }), "{p:?}");
    }
}

#[test]
fn plan_identical_when_match() {
    let files = canonical_files("v0.1.0");
    let existing = files.iter().map(|(_, c)| Some(c.clone())).collect();
    let plans = plan(&files, &existing);
    for p in &plans {
        assert!(matches!(p, FilePlan::Identical { .. }), "{p:?}");
    }
}

#[test]
fn plan_diverged_when_modified() {
    let plans = plans_for(vec![Some("local changes".to_string()); 6]);
    for p in &plans {
        assert!(matches!(p, FilePlan::Diverged { .. }), "{p:?}");
    }
}

#[test]
fn apply_creates_when_absent() {
    let plans = plans_for(vec![None; 6]);
    let (writes, blocked) = apply(&plans, false);
    assert!(blocked.is_none());
    assert_eq!(writes.len(), plans.len());
    for (w, p) in writes.iter().zip(&plans) {
        assert_eq!(&w.0, p.rel());
    }
}

#[test]
fn apply_refuses_diverged_without_force() {
    let plans = plans_for(vec![Some("local changes".to_string()); 6]);
    let (writes, blocked) = apply(&plans, false);
    assert!(writes.is_empty());
    let b = blocked.unwrap();
    assert!(b.message().contains("--force"));
    assert_eq!(b.message(), ".github/workflows/avp.yml diverges from canonical; pass --force to overwrite");
}

#[test]
fn apply_overwrites_with_force() {
    let plans = plans_for(vec![Some("local changes".to_string()); 6]);
    let (writes, blocked) = apply(&plans, true);
    assert!(blocked.is_none());
    assert_eq!(writes, canonical_files("v0.1.0"));
}

#[test]
fn apply_writes_up_to_the_first_divergence() {
    let mut existing = vec![None; 6];
    existing[2] = Some("local".to_string());
    let plans = plans_for(existing);
    let (writes, blocked) = apply(&plans, false);
    assert_eq!(names(&writes), vec![".github/workflows/avp.yml", "avp-ratchet.toml"]);
    assert_eq!(blocked.unwrap().rel, "deny.toml");
}

#[test]
fn render_plan_shapes() {
    let create = FilePlan::Create { rel: "a.toml".to_string(), content: "x".into() };
    let identical = FilePlan::Identical { rel: "b.toml".to_string() };
    let diverged = FilePlan::Diverged {
        rel: "c.toml".to_string(),
        existing: "old".into(),
        canonical: "new".into(),
    };
    assert!(render_plan(&create).starts_with("+ would create"));
    assert!(render_plan(&identical).starts_with("= identical"));
    assert!(render_plan(&diverged).starts_with("! diverged"));
}

#[test]
fn render_plan_texts_are_exact() {
    let create = FilePlan::Create { rel: "a.toml".to_string(), content: "x\ny\n".into() };
    assert_eq!(render_plan(&create), "+ would create a.toml\n  + x\n  + y\n\n");
    let diverged = FilePlan::Diverged {
        rel: "c.toml".to_string(),
        existing: "\u{e9}".into(),
        canonical: "new".into(),
    };
    assert_eq!(
        render_plan(&diverged),
        "! diverged c.toml (use --force to overwrite)\n  existing (2 bytes):\n  - \u{e9}\n\n  canonical (3 bytes):\n  + new\n\n"
    );
}

#[test]
fn prefix_lines_follows_str_lines() {
    assert_eq!(prefix_lines("a\r\nb", "> "), "> a\n> b\n");
    assert_eq!(prefix_lines("", "> "), "");
    assert_eq!(prefix_lines("\n\n", "> "), "> \n> \n");
}

#[test]
fn run_reports() {
    let mut existing = vec![None; 6];
    existing[1] = Some("avp-ratchet".to_string());
    let files = canonical_files("v0.1.0");
    existing[3] = Some(files[3].1.clone());
    let plans = plan(&files, &existing);
    let (text, failed) = dry_run_report(&plans);
    assert!(failed);
    assert!(text.starts_with("+ would create .github/workflows/avp.yml\n"));
    let (lines, msg) = blocker_report(&plans).unwrap();
    assert_eq!(lines.len(), 1);
    assert!(lines[0].starts_with("avp install: ! diverged avp-ratchet.toml"));
    assert_eq!(msg, "1 file(s) diverge \u{2014} re-run with --force or --dry-run");
    assert_eq!(summary_line(4, &plans), "avp install: 4 file(s) written, 1 identical, 1 diverged");
    let clean = plans_for(vec![None; 6]);
    assert!(blocker_report(&clean).is_none());
    assert!(!dry_run_report(&clean).1);
}
