use avp::finding::{Finding, Severity};
use avp::gate::GateId;
use avp::gates::bug_assumption::BugAssumption;
use avp::gates::debug_remove::{is_self_path, DebugRemove};
use avp::gates::forbidden_call::ForbiddenCall;
use avp::gates::test_density::count;
use avp::gates::unsafe_proof::UnsafeProof;
use avp::gates::all_gates;
use avp::source::{Node, RustSource};
use syn::visit::{self, Visit};

// ───────────── syntax outline of a source text, as the gates read it ─────────────

struct Outline {
    frames: Vec<Vec<Node>>,
}

impl Outline {
    fn open(&mut self) {
        self.frames.push(Vec::new());
    }

    fn close(&mut self) -> Vec<Node> {
        self.frames.pop().unwrap_or_default()
    }

    fn emit(&mut self, n: Node) {
        if let Some(top) = self.frames.last_mut() {
            top.push(n);
        }
    }
}

fn line_of(span: proc_macro2::Span) -> u32 {
    u32::try_from(span.start().line).unwrap_or(1).max(1)
}

fn is_cfg_test(attrs: &[syn::Attribute]) -> bool {
    attrs.iter().any(|a| {
        a.path().is_ident("cfg")
            && a.parse_args::<syn::Meta>().is_ok_and(|m| match m {
                syn::Meta::Path(p) => p.is_ident("test"),
                _ => false,
            })
    })
}

const TEST_ATTRS: &[&str] = &[
    "test",
    "tokio::test",
    "async_std::test",
    "rstest",
    "proptest",
    "quickcheck",
    "test_log::test",
];

fn has_test_attr(attrs: &[syn::Attribute]) -> bool {
    attrs.iter().any(|a| {
        let path = a.path();
        if let Some(ident) = path.get_ident() {
            return TEST_ATTRS.iter().any(|t| ident == t);
        }
        let joined = path.segments.iter().map(|s| s.ident.to_string()).collect::<Vec<_>>().join("::");
        TEST_ATTRS.contains(&joined.as_str())
    })
}

fn macro_node(mac: &syn::Macro) -> Node {
    match mac.path.get_ident() {
        Some(ident) => Node::Macro { name: Some(ident.to_string()), line: line_of(ident.span()) },
        None => Node::Macro {
            name: None,
            line: mac.path.segments.first().map_or(1, |s| line_of(s.ident.span())),
        },
    }
}

impl<'ast> Visit<'ast> for Outline {
    fn visit_item_fn(&mut self, f: &'ast syn::ItemFn) {
        self.open();
        visit::visit_item_fn(self, f);
        let body = self.close();
        self.emit(Node::Fn {
            name: f.sig.ident.to_string(),
            line: line_of(f.sig.fn_token.span),
            is_pub: matches!(f.vis, syn::Visibility::Public(_)),
            cfg_test: is_cfg_test(&f.attrs),
            test_attr: has_test_attr(&f.attrs),
            unsafe_line: f.sig.unsafety.map(|u| line_of(u.span)),
            body,
        });
    }

    fn visit_impl_item_fn(&mut self, f: &'ast syn::ImplItemFn) {
        self.open();
        visit::visit_impl_item_fn(self, f);
        let body = self.close();
        self.emit(Node::Fn {
            name: f.sig.ident.to_string(),
            line: line_of(f.sig.fn_token.span),
            is_pub: matches!(f.vis, syn::Visibility::Public(_)),
            cfg_test: is_cfg_test(&f.attrs),
            test_attr: has_test_attr(&f.attrs),
            unsafe_line: f.sig.unsafety.map(|u| line_of(u.span)),
            body,
        });
    }

    fn visit_trait_item_fn(&mut self, f: &'ast syn::TraitItemFn) {
        self.open();
        visit::visit_trait_item_fn(self, f);
        let body = self.close();
        self.emit(Node::Fn {
            name: f.sig.ident.to_string(),
            line: line_of(f.sig.fn_token.span),
            is_pub: false,
            cfg_test: is_cfg_test(&f.attrs),
            test_attr: has_test_attr(&f.attrs),
            unsafe_line: f.sig.unsafety.map(|u| line_of(u.span)),
            body,
        });
    }

    fn visit_item_impl(&mut self, i: &'ast syn::ItemImpl) {
        self.open();
        visit::visit_item_impl(self, i);
        let items = self.close();
        self.emit(Node::Impl {
            trait_impl: i.trait_.is_some(),
            cfg_test: is_cfg_test(&i.attrs),
            unsafe_line: i.unsafety.map(|u| line_of(u.span)),
            items,
        });
    }

    fn visit_item_trait(&mut self, t: &'ast syn::ItemTrait) {
        self.open();
        visit::visit_item_trait(self, t);
        let items = self.close();
        self.emit(Node::Trait { unsafe_line: t.unsafety.map(|u| line_of(u.span)), items });
    }

    fn visit_item_mod(&mut self, m: &'ast syn::ItemMod) {
        self.open();
        visit::visit_item_mod(self, m);
        let items = self.close();
        self.emit(Node::Mod {
            cfg_test: is_cfg_test(&m.attrs),
            items: if m.content.is_some() { Some(items) } else { None },
        });
    }

    fn visit_expr_method_call(&mut self, c: &'ast syn::ExprMethodCall) {
        self.open();
        visit::visit_expr_method_call(self, c);
        let inner = self.close();
        self.emit(Node::MethodCall { name: c.method.to_string(), line: line_of(c.method.span()), inner });
    }

    fn visit_expr_macro(&mut self, m: &'ast syn::ExprMacro) {
        self.emit(macro_node(&m.mac));
    }

    fn visit_stmt_macro(&mut self, m: &'ast syn::StmtMacro) {
        self.emit(macro_node(&m.mac));
    }

    fn visit_item_macro(&mut self, m: &'ast syn::ItemMacro) {
        self.emit(macro_node(&m.mac));
    }

    fn visit_expr_unsafe(&mut self, u: &'ast syn::ExprUnsafe) {
        self.open();
        visit::visit_expr_unsafe(self, u);
        let inner = self.close();
        self.emit(Node::Unsafe { line: line_of(u.unsafe_token.span), inner });
    }
}

fn outline(text: &str) -> Vec<Node> {
    let file = syn::parse_file(text).expect("parses");
    let mut o = Outline { frames: vec![Vec::new()] };
    o.visit_file(&file);
    o.close()
}

fn src(rel: &str, text: &str) -> RustSource {
    RustSource::new(format!("/tmp/{rel}"), rel.to_string(), text.to_string(), outline(text), false)
}

fn lib(text: &str) -> RustSource {
    src("src/lib.rs", text)
}

// ───────────── bug-assumption ─────────────

fn run_one(text: &str) -> Vec<Finding> {
    BugAssumption::default().run_on(&[lib(text)])
}

#[test]
fn pub_fn_with_marker_is_clean() {
    let text = "
        // BUG ASSUMPTION: x is non-empty.
        pub fn x() {}
    ";
    assert!(run_one(text).is_empty());
}

#[test]
fn pub_fn_without_marker_fails() {
    let findings = run_one("pub fn x() {}\n");
    assert_eq!(findings.len(), 1);
    assert_eq!(findings[0].gate, GateId::BugAssumption);
    assert!(findings[0].message.contains('x'));
    assert_eq!(findings[0].message, "missing BUG ASSUMPTION: comment for public fn `x`");
    assert_eq!(findings[0].location.line, Some(1));
}

#[test]
fn private_fn_ignored() {
    assert!(run_one("fn x() {}\n").is_empty());
}

#[test]
fn pub_crate_ignored_today() {
    assert!(run_one("pub(crate) fn x() {}\n").is_empty());
}

#[test]
fn bug_assumption_marker_outside_window_fails() {
    let mut text = String::from("// BUG ASSUMPTION: stale\n");
    for _ in 0..21 {
        text.push('\n');
    }
    text.push_str("pub fn x() {}\n");
    assert_eq!(run_one(&text).len(), 1);
}

#[test]
fn marker_inside_window_clean() {
    let mut text = String::new();
    for _ in 0..10 {
        text.push('\n');
    }
    text.push_str("// BUG ASSUMPTION: ok\n");
    for _ in 0..5 {
        text.push('\n');
    }
    text.push_str("pub fn x() {}\n");
    assert!(run_one(&text).is_empty());
}

#[test]
fn pub_method_in_inherent_impl_covered() {
    let text = "
        pub struct S;
        impl S {
            pub fn x(&self) {}
        }
    ";
    let findings = run_one(text);
    assert_eq!(findings.len(), 1);
    assert!(findings[0].message.contains('x'));
}

#[test]
fn pub_method_in_trait_impl_skipped() {
    let text = "
        pub struct S;
        pub trait T { fn x(&self); }
        impl T for S {
            fn x(&self) {}
        }
    ";
    assert!(run_one(text).is_empty());
}

#[test]
fn bug_assumption_cfg_test_module_skipped() {
    let text = "
        #[cfg(test)]
        mod tests {
            pub fn helper() {}
        }
    ";
    assert!(run_one(text).is_empty());
}

#[test]
fn bug_assumption_non_library_class_skipped() {
    let s = src("src/main.rs", "pub fn x() {}\n");
    assert!(BugAssumption::default().run_on(&[s]).is_empty());
}

#[test]
fn multiple_pub_fns_each_independently_checked() {
    let text = "
        // BUG ASSUMPTION: a is fine.
        pub fn a() {}

        pub fn b() {}

        // BUG ASSUMPTION: c is fine.
        pub fn c() {}
    ";
    let findings = run_one(text);
    assert_eq!(findings.len(), 1);
    assert!(findings[0].message.contains('b'));
}

#[test]
fn custom_window_honored() {
    let mut text = String::from("// BUG ASSUMPTION: distant\n");
    for _ in 0..50 {
        text.push('\n');
    }
    text.push_str("pub fn x() {}\n");
    assert_eq!(BugAssumption::default().run_on(&[lib(&text)]).len(), 1);
    let g = BugAssumption::with_window(100);
    assert_eq!(g.run_on(&[lib(&text)]).len(), 0);
}

#[test]
fn marker_for_another_fn_does_not_count() {
    let text = "// BUG ASSUMPTION: for a\npub fn a() {}\npub fn b() {}\n";
    let findings = run_one(text);
    assert_eq!(findings.len(), 1);
    assert!(findings[0].message.contains("`b`"));
}

// ───────────── forbidden-call ─────────────

fn run_fc(text: &str) -> Vec<Finding> {
    ForbiddenCall::default().run_on(&[lib(text)])
}

#[test]
fn unwrap_without_justification_fails() {
    let findings = run_fc("pub fn x() -> i32 { Some(1).unwrap() }\n");
    assert_eq!(findings.len(), 1);
    assert!(findings[0].message.contains("unwrap"));
    assert_eq!(
        findings[0].message,
        "forbidden call `.unwrap()` in library code (no justification comment on line)"
    );
}

#[test]
fn unwrap_with_safety_justification_clean() {
    assert!(run_fc("pub fn x() -> i32 { Some(1).unwrap() } // SAFETY: literal\n").is_empty());
}

#[test]
fn unwrap_with_test_only_justification_clean() {
    assert!(run_fc("pub fn x() -> i32 { Some(1).unwrap() } // test-only fixture\n").is_empty());
}

#[test]
fn unwrap_with_avp_pass_justification_clean() {
    assert!(run_fc("pub fn x() -> i32 { Some(1).unwrap() } // AVP-PASS-2026-04-30 reviewed\n").is_empty());
}

#[test]
fn expect_flagged() {
    assert_eq!(run_fc("pub fn x() -> i32 { Some(1).expect(\"why\") }\n").len(), 1);
}

#[test]
fn panic_macro_flagged() {
    let findings = run_fc("pub fn x() { panic!(\"nope\"); }\n");
    assert_eq!(findings.len(), 1);
    assert!(findings[0].message.contains("panic!"));
}

#[test]
fn dbg_macro_flagged() {
    assert_eq!(run_fc("pub fn x() { dbg!(1); }\n").len(), 1);
}

#[test]
fn println_macro_flagged() {
    assert_eq!(run_fc("pub fn x() { println!(\"hi\"); }\n").len(), 1);
}

#[test]
fn todo_unimplemented_flagged() {
    assert_eq!(run_fc("pub fn a() { todo!() }\npub fn b() { unimplemented!() }\n").len(), 2);
}

#[test]
fn forbidden_call_cfg_test_module_skipped() {
    assert!(run_fc("#[cfg(test)]\nmod t { pub fn x() { panic!(\"ok in test\") } }\n").is_empty());
}

#[test]
fn forbidden_call_non_library_class_skipped() {
    let s = src("src/main.rs", "pub fn x() { println!(\"hi\"); }\n");
    assert!(ForbiddenCall::default().run_on(&[s]).is_empty());
}

#[test]
fn nested_unwrap_inside_block_flagged() {
    assert_eq!(run_fc("pub fn x() { if true { Some(1).unwrap(); } }\n").len(), 1);
}

#[test]
fn multiple_violations_each_reported() {
    let findings = run_fc("pub fn x() { Some(1).unwrap(); println!(\"a\"); panic!(\"b\"); }\n");
    assert_eq!(findings.len(), 3);
}

// ───────────── unsafe-proof ─────────────

fn run_up(text: &str) -> Vec<Finding> {
    UnsafeProof::default().run_on(&[lib(text)])
}

#[test]
fn unsafe_block_without_proof_fails() {
    let findings = run_up("pub fn x() { unsafe { } }\n");
    assert_eq!(findings.len(), 1);
    assert!(findings[0].message.contains("unsafe block"));
}

#[test]
fn unsafe_block_with_safety_proof_clean() {
    assert!(run_up("pub fn x() {\n    // SAFETY: trivially sound\n    unsafe { }\n}\n").is_empty());
}

#[test]
fn unsafe_fn_without_proof_fails() {
    let text = "pub unsafe fn x() {}\n";
    assert_eq!(run_up(text).len(), 1);
    assert!(run_up(text)[0].message.contains("unsafe fn"));
}

#[test]
fn unsafe_fn_with_proof_clean() {
    assert!(run_up("// SAFETY: caller upholds invariants.\npub unsafe fn x() {}\n").is_empty());
}

#[test]
fn unsafe_impl_without_proof_fails() {
    let text = "pub struct S; unsafe impl Send for S {}\n";
    assert_eq!(run_up(text).len(), 1);
    assert!(run_up(text)[0].message.contains("unsafe impl"));
}

#[test]
fn unsafe_trait_without_proof_fails() {
    let text = "pub unsafe trait T {}\n";
    assert_eq!(run_up(text).len(), 1);
    assert!(run_up(text)[0].message.contains("unsafe trait"));
}

#[test]
fn nested_blocks_each_checked() {
    let text = "
        pub fn x() {
            unsafe { /* one */ }
            // SAFETY: ok
            unsafe { /* two */ }
        }
    ";
    assert_eq!(run_up(text).len(), 1, "only first should fail");
}

#[test]
fn unsafe_proof_marker_outside_window_fails() {
    let mut text = String::from("// SAFETY: stale\n");
    for _ in 0..6 {
        text.push('\n');
    }
    text.push_str("pub fn x() { unsafe { } }\n");
    assert_eq!(run_up(&text).len(), 1);
}

#[test]
fn unsafe_proof_cfg_test_module_skipped() {
    assert!(run_up("#[cfg(test)]\nmod t { pub fn x() { unsafe { } } }\n").is_empty());
}

#[test]
fn test_class_skipped() {
    let s = src("tests/it.rs", "fn x() { unsafe { } }\n");
    assert!(UnsafeProof::default().run_on(&[s]).is_empty());
}

#[test]
fn unsafe_in_bin_still_checked() {
    let s = src("src/main.rs", "pub fn x() { unsafe { } }\n");
    assert_eq!(UnsafeProof::default().run_on(&[s]).len(), 1);
}

// ───────────── debug-remove ─────────────

fn needle() -> String {
    ["DEBUG", "-REMOVE:"].concat()
}

#[test]
fn clean_source_finds_nothing() {
    let s = src("src/lib.rs", "pub fn ok() {}\n");
    assert!(DebugRemove::default().run_on(&[s]).is_empty());
}

#[test]
fn line_with_marker_is_flagged() {
    let s = src("src/lib.rs", &format!("// {} tidy this up\npub fn x() {{}}\n", needle()));
    let findings = DebugRemove::default().run_on(&[s]);
    assert_eq!(findings.len(), 1);
    assert_eq!(findings[0].severity, Severity::Error);
    assert_eq!(findings[0].location.line, Some(1));
    assert_eq!(findings[0].gate, GateId::DebugRemove);
}

#[test]
fn marker_in_string_literal_still_flagged() {
    let s = src("src/lib.rs", &format!("pub fn x() {{ let _ = \"{} hi\"; }}\n", needle()));
    assert_eq!(DebugRemove::default().run_on(&[s]).len(), 1);
}

#[test]
fn multiple_lines_all_flagged() {
    let n = needle();
    let s = src("src/lib.rs", &format!("// {n} a\npub fn x() {{}}\n// {n} b\npub fn y() {{}}\n"));
    let findings = DebugRemove::default().run_on(&[s]);
    assert_eq!(findings.len(), 2);
    assert_eq!(findings[0].location.line, Some(1));
    assert_eq!(findings[1].location.line, Some(3));
}

#[test]
fn self_path_skipped() {
    let s = src("crates/avp-rust/src/gates/debug_remove.rs", &format!("// {} ignore\n", needle()));
    assert!(DebugRemove::default().run_on(&[s]).is_empty());
    assert!(is_self_path("x\\crates\\avp-core\\src\\gate.rs"));
    assert!(!is_self_path("src/gate.rs"));
}

// ───────────── test density counts ─────────────

fn counted(sources: &[RustSource]) -> (u32, u32) {
    let c = count(sources);
    (c.tests, c.public_fns)
}

#[test]
fn meets_floor_counts() {
    let s = lib("
        pub fn x() {}

        #[cfg(test)]
        mod tests {
            #[test] fn t1() {}
            #[test] fn t2() {}
            #[test] fn t3() {}
            #[test] fn t4() {}
        }
    ");
    assert_eq!(counted(&[s]), (4, 1));
}

#[test]
fn tokio_tests_and_impl_methods_count() {
    let s = lib("
        pub struct S;
        impl S {
            pub fn a(&self) {}
            pub fn b(&self) {}
        }
        #[cfg(test)]
        mod tests {
            #[tokio::test] async fn t1() {}
            #[test] fn t2() {}
        }
    ");
    assert_eq!(counted(&[s]), (2, 2));
}

#[test]
fn trait_impl_methods_not_counted_as_public() {
    let s = lib("
        pub trait T { fn x(&self); }
        pub struct S;
        impl T for S { fn x(&self) {} }
        #[cfg(test)]
        mod tests {
            #[test] fn t1() {}
        }
    ");
    assert_eq!(counted(&[s]), (1, 0));
}

#[test]
fn proptest_blocks_counted() {
    let s = lib("
        pub fn x() {}
        #[cfg(test)]
        mod tests {
            proptest! {
                fn one(_v in 0u32..) {}
            }
            proptest! {
                fn two(_v in 0u32..) {}
            }
        }
    ");
    assert_eq!(counted(&[s]), (2, 1));
}

#[test]
fn non_library_pub_fns_excluded_from_denominator() {
    let l = lib("pub fn one() {}\n");
    let bin = src("src/main.rs", "pub fn extra1() {}\npub fn extra2() {}\n");
    let t = src("tests/it.rs", "#[test] fn t1() {}\n#[test] fn t2() {}\n#[test] fn t3() {}\n#[test] fn t4() {}\n");
    assert_eq!(counted(&[l, bin, t]), (4, 1));
}

#[test]
fn gate_list_is_stable() {
    assert_eq!(
        all_gates(),
        vec![
            GateId::BugAssumption,
            GateId::ForbiddenCall,
            GateId::DebugRemove,
            GateId::UnsafeProof,
            GateId::TestDensityAggregate
        ]
    );
}

// ───────────── source classification and outline ─────────────

use avp::source::{parse_crate_name, wanted_source, SourceClass};

#[test]
fn classify_library() {
    assert_eq!(SourceClass::classify("src/lib.rs"), SourceClass::Library);
    assert_eq!(SourceClass::classify("crates/foo/src/inner.rs"), SourceClass::Library);
}

#[test]
fn classify_bin() {
    assert_eq!(SourceClass::classify("src/main.rs"), SourceClass::Bin);
    assert_eq!(SourceClass::classify("src/bin/tool.rs"), SourceClass::Bin);
    assert_eq!(SourceClass::classify("crates/foo/src/bin/x.rs"), SourceClass::Bin);
}

#[test]
fn classify_test_bench_example() {
    assert_eq!(SourceClass::classify("tests/it.rs"), SourceClass::Test);
    assert_eq!(SourceClass::classify("benches/bench.rs"), SourceClass::Bench);
    assert_eq!(SourceClass::classify("examples/demo.rs"), SourceClass::Example);
}

#[test]
fn classify_other() {
    assert_eq!(SourceClass::classify("build.rs"), SourceClass::Other);
    assert_eq!(SourceClass::classify("xtask/main.rs"), SourceClass::Other);
}

#[test]
fn classify_windows_separators() {
    assert_eq!(SourceClass::classify("crates\\foo\\src\\lib.rs"), SourceClass::Library);
}

#[test]
fn parse_minimal() {
    let s = lib("pub fn one() {}\npub fn two() {}\n");
    assert_eq!(s.class(), SourceClass::Library);
    assert_eq!(s.line_count(), 3);
}

#[test]
fn line_for_offset_round_trip() {
    let s = lib("const A: u8 = 1;\nconst B: u8 = 2;\nconst C: u8 = 3;\n");
    assert_eq!(s.line_for_offset(0), 1);
    assert_eq!(s.line_for_offset(16), 1);
    assert_eq!(s.line_for_offset(17), 2);
}

#[test]
fn line_window_inclusive() {
    let text = "pub fn one() {}\npub fn two() {}\npub fn three() {}\npub fn four() {}\n";
    let s = lib(text);
    assert_eq!(s.line_window(2, 3), "pub fn two() {}\npub fn three() {}\n");
    assert_eq!(s.line_window(1, 1), "pub fn one() {}\n");
    assert_eq!(s.line_window(1, 99), text);
}

#[test]
fn binary_only_crate_library_counts_as_bin() {
    let s = RustSource::new("/r/src/cli.rs".into(), "src/cli.rs".into(), "fn x() {}".into(), Vec::new(), true);
    assert_eq!(s.class(), SourceClass::Bin);
    let t = RustSource::new("/r/tests/a.rs".into(), "tests/a.rs".into(), "fn x() {}".into(), Vec::new(), true);
    assert_eq!(t.class(), SourceClass::Test);
}

#[test]
fn parse_crate_name_quoted() {
    let m = "[package]\nname = \"avp-core\"\nversion = \"0.1\"\n";
    assert_eq!(parse_crate_name(m).as_deref(), Some("avp-core"));
}

#[test]
fn parse_crate_name_with_comment() {
    let m = "[package]\nname = \"avp\"  # binary\n";
    assert_eq!(parse_crate_name(m).as_deref(), Some("avp"));
}

#[test]
fn parse_crate_name_skips_other_sections() {
    let m = "[lib]\nname = \"wrong\"\n[package]\nname = \"right\"\n";
    assert_eq!(parse_crate_name(m).as_deref(), Some("right"));
}

#[test]
fn parse_crate_name_workspace_inheritance_returns_none() {
    let m = "[package]\nname = { workspace = true }\n";
    assert_eq!(parse_crate_name(m), None);
}

#[test]
fn walker_keeps_rust_files_outside_target() {
    assert!(wanted_source("/r/src/lib.rs", Some("src/lib.rs")));
    assert!(!wanted_source("/r/target/debug/should-skip.rs", Some("target/debug/should-skip.rs")));
    assert!(!wanted_source("/r/Cargo.toml", Some("Cargo.toml")));
}

#[test]
fn hidden_directories_are_skipped() {
    assert!(!wanted_source("/r/.hidden/y.rs", Some(".hidden/y.rs")));
    assert!(!wanted_source("/r/src/.cache/z.rs", Some("src/.cache/z.rs")));
    assert!(wanted_source("/r/src/a.b/lib.rs", Some("src/a.b/lib.rs")));
    assert!(wanted_source("/r/src/lib.rs", Some("src/lib.rs")));
}

#[test]
fn test_attribute_rules() {
    for p in ["test", "tokio::test", "async_std::test", "rstest", "proptest", "quickcheck", "test_log::test"] {
        assert!(avp::source::is_test_attr_path(p), "{p}");
    }
    assert!(!avp::source::is_test_attr_path("bench"));
    assert!(!avp::source::is_test_attr_path("::test"));
    assert!(avp::source::has_test_attr(&["inline".to_string(), "tokio::test".to_string()]));
    assert!(!avp::source::has_test_attr(&["inline".to_string()]));
    assert!(avp::source::is_cfg_test(&[("cfg".to_string(), Some("test".to_string()))]));
    assert!(!avp::source::is_cfg_test(&[("cfg".to_string(), None)]));
    assert!(!avp::source::is_cfg_test(&[("cfg".to_string(), Some("unix".to_string()))]));
    assert!(!avp::source::is_cfg_test(&[("cfg_attr".to_string(), Some("test".to_string()))]));
}
