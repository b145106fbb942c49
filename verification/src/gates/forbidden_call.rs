//! `forbidden-call` gate: bans crash-prone calls in library code.
//!
//! Banned: `.unwrap()` and `.expect(…)`; `panic!`, `todo!`,
//! `unimplemented!`; `dbg!`, `println!`, `eprintln!`. A call is allowed
//! when its line carries a justification comment (`// SAFETY:`,
//! `// test-only`, `// AVP-PASS-`, `// SHIP-DECISION:`,
//! `// FOSS-ABSORBED:`). Only library files are scanned, and
//! `#[cfg(test)]` modules are skipped.

use vstd::prelude::*;

use crate::finding::{lemma_line_errors_append, line_errors, Finding, Location};
use crate::gate::{Gate, GateId};
use crate::source::{window_of, Node, RustSource, SourceClass};
use crate::text::{chars_of, contains, contains_exec, push_str, str_eq};

verus! {

/// A method whose call is banned.
pub open spec fn banned_method(n: Seq<char>) -> bool {
    n == "unwrap"@ || n == "expect"@
}

/// A macro whose invocation is banned.
pub open spec fn banned_macro(n: Seq<char>) -> bool {
    n == "panic"@ || n == "todo"@ || n == "unimplemented"@ || n == "dbg"@ || n == "println"@ || n
        == "eprintln"@
}

/// The banned calls in a node, as (line, call text), in visit order.
/// `#[cfg(test)]` modules are skipped.
pub open spec fn node_calls(n: Node) -> Seq<(u32, Seq<char>)>
    decreases n,
{
    match n {
        Node::Fn { body, .. } => list_calls(body@),
        Node::Impl { items, .. } => list_calls(items@),
        Node::Trait { items, .. } => list_calls(items@),
        Node::Mod { cfg_test, items } => if cfg_test {
            Seq::empty()
        } else {
            match items {
                Some(v) => list_calls(v@),
                None => Seq::empty(),
            }
        },
        Node::MethodCall { name, line, inner } => (if banned_method(name@) {
            seq![(line, "."@ + name@ + "()"@)]
        } else {
            Seq::empty()
        }) + list_calls(inner@),
        Node::Macro { name, line } => match name {
            Some(m) => if banned_macro(m@) {
                seq![(line, m@ + "!"@)]
            } else {
                Seq::empty()
            },
            None => Seq::empty(),
        },
        Node::Unsafe { inner, .. } => list_calls(inner@),
        Node::Group(g) => list_calls(g@),
    }
}

/// The banned calls in a sequence of nodes, in order.
pub open spec fn list_calls(ns: Seq<Node>) -> Seq<(u32, Seq<char>)>
    decreases ns,
{
    if ns.len() == 0 {
        Seq::empty()
    } else {
        list_calls(ns.drop_last()) + node_calls(ns.last())
    }
}

/// The justification comments that allow a banned call on their line.
pub open spec fn justifications() -> Seq<Seq<char>> {
    seq![
        "// SAFETY:"@,
        "// test-only"@,
        "// AVP-PASS-"@,
        "// SHIP-DECISION:"@,
        "// FOSS-ABSORBED:"@,
    ]
}

/// Line `line` of `text` carries a justification comment.
pub open spec fn justified(text: Seq<char>, line: u32) -> bool {
    exists|j: int| 0 <= j < 5 && contains(window_of(text, line as int, line as int), justifications()[j])
}

/// The message of a banned call.
pub open spec fn call_message(kind: Seq<char>) -> Seq<char> {
    "forbidden call `"@ + kind + "` in library code (no justification comment on line)"@
}

/// The findings for the calls `hits` of file `file` with text `text`:
/// one per unjustified call.
pub open spec fn call_findings(file: Seq<char>, text: Seq<char>, hits: Seq<(u32, Seq<char>)>) -> Seq<
    (Seq<char>, u32, Seq<char>),
>
    decreases hits.len(),
{
    if hits.len() == 0 {
        Seq::empty()
    } else {
        call_findings(file, text, hits.drop_last()) + if justified(text, hits.last().0) {
            Seq::empty()
        } else {
            seq![(file, hits.last().0, call_message(hits.last().1))]
        }
    }
}

/// The findings for one source: none unless it is library code.
pub open spec fn source_findings(src: RustSource) -> Seq<(Seq<char>, u32, Seq<char>)> {
    if src.class_view() == SourceClass::Library {
        call_findings(src.rel_view(), src.text_view(), list_calls(src.items()))
    } else {
        Seq::empty()
    }
}

/// The findings for a sequence of sources, in order.
pub open spec fn all_findings(srcs: Seq<RustSource>) -> Seq<(Seq<char>, u32, Seq<char>)>
    decreases srcs.len(),
{
    if srcs.len() == 0 {
        Seq::empty()
    } else {
        all_findings(srcs.drop_last()) + source_findings(srcs.last())
    }
}

/// The characters of a sequence of hits.
pub open spec fn hit_views(v: Seq<(u32, String)>) -> Seq<(u32, Seq<char>)> {
    v.map_values(|h: (u32, String)| (h.0, h.1@))
}

/// Append the banned calls of `ns` to `out`.
fn collect_list(ns: &Vec<Node>, out: &mut Vec<(u32, String)>)
    ensures
        hit_views(final(out)@) == hit_views(old(out)@) + list_calls(ns@),
    decreases ns@,
{
    let mut i: usize = 0;
    assert(ns@.take(0) =~= Seq::<Node>::empty());
    assert(hit_views(out@) =~= hit_views(old(out)@) + list_calls(ns@.take(0)));
    while i < ns.len()
        invariant
            i <= ns@.len(),
            hit_views(out@) == hit_views(old(out)@) + list_calls(ns@.take(i as int)),
        decreases ns.len() - i,
    {
        assert(ns@.take(i + 1).drop_last() =~= ns@.take(i as int));
        assert(ns@.take(i + 1).last() == ns@[i as int]);
        collect_node(&ns[i], out);
        i = i + 1;
    }
    assert(ns@.take(i as int) =~= ns@);
}

/// Append the banned calls of `n` to `out`.
fn collect_node(n: &Node, out: &mut Vec<(u32, String)>)
    ensures
        hit_views(final(out)@) == hit_views(old(out)@) + node_calls(*n),
    decreases *n,
{
    match n {
        Node::Fn { body, .. } => collect_list(body, out),
        Node::Impl { items, .. } => collect_list(items, out),
        Node::Trait { items, .. } => collect_list(items, out),
        Node::Mod { cfg_test, items } => {
            if !*cfg_test {
                if let Some(v) = items {
                    collect_list(v, out);
                }
            }
            assert(hit_views(out@) =~= hit_views(old(out)@) + node_calls(*n));
        },
        Node::MethodCall { name, line, inner } => {
            if str_eq(name.as_str(), "unwrap") || str_eq(name.as_str(), "expect") {
                let mut kind = ".".to_string();
                push_str(&mut kind, name.as_str());
                push_str(&mut kind, "()");
                let ghost before = hit_views(out@);
                out.push((*line, kind));
                assert(hit_views(out@) =~= before.push((*line, "."@ + name@ + "()"@)));
            }
            let ghost mid = hit_views(out@);
            collect_list(inner, out);
            assert(hit_views(out@) =~= hit_views(old(out)@) + node_calls(*n));
        },
        Node::Macro { name, line } => {
            if let Some(m) = name {
                if str_eq(m.as_str(), "panic") || str_eq(m.as_str(), "todo") || str_eq(
                    m.as_str(),
                    "unimplemented",
                ) || str_eq(m.as_str(), "dbg") || str_eq(m.as_str(), "println") || str_eq(
                    m.as_str(),
                    "eprintln",
                ) {
                    let mut kind = m.clone();
                    push_str(&mut kind, "!");
                    let ghost before = hit_views(out@);
                    out.push((*line, kind));
                    assert(hit_views(out@) =~= before.push((*line, m@ + "!"@)));
                }
            }
            assert(hit_views(out@) =~= hit_views(old(out)@) + node_calls(*n));
        },
        Node::Unsafe { inner, .. } => collect_list(inner, out),
        Node::Group(g) => collect_list(g, out),
    }
}

/// Whether line `line` of `src` carries a justification comment.
fn line_has_justification(src: &RustSource, line: u32) -> (r: bool)
    ensures
        r == justified(src.text_view(), line),
{
    let win = src.line_window(line, line);
    let w = chars_of(win.as_str());
    let j0 = chars_of("// SAFETY:");
    let j1 = chars_of("// test-only");
    let j2 = chars_of("// AVP-PASS-");
    let j3 = chars_of("// SHIP-DECISION:");
    let j4 = chars_of("// FOSS-ABSORBED:");
    let r = contains_exec(w.as_slice(), j0.as_slice()) || contains_exec(w.as_slice(), j1.as_slice())
        || contains_exec(w.as_slice(), j2.as_slice()) || contains_exec(w.as_slice(), j3.as_slice())
        || contains_exec(w.as_slice(), j4.as_slice());
    proof {
        let ghost t = window_of(src.text_view(), line as int, line as int);
        if r {
            if contains(t, j0@) {
                assert(justifications()[0] == j0@);
            } else if contains(t, j1@) {
                assert(justifications()[1] == j1@);
            } else if contains(t, j2@) {
                assert(justifications()[2] == j2@);
            } else if contains(t, j3@) {
                assert(justifications()[3] == j3@);
            } else {
                assert(justifications()[4] == j4@);
            }
        } else {
            assert forall|j: int| 0 <= j < 5 implies !contains(t, justifications()[j]) by {
                if j == 0 {
                    assert(justifications()[0] == j0@);
                } else if j == 1 {
                    assert(justifications()[1] == j1@);
                } else if j == 2 {
                    assert(justifications()[2] == j2@);
                } else if j == 3 {
                    assert(justifications()[3] == j3@);
                } else {
                    assert(justifications()[4] == j4@);
                }
            }
        }
    }
    r
}

/// `forbidden-call` implementation.
#[derive(Debug, Default, Clone, Copy)]
#[non_exhaustive]
pub struct ForbiddenCall;

impl ForbiddenCall {
    /// Run on pre-loaded sources: one error per unjustified banned call
    /// in library code, in source order.
    pub fn run_on(self, sources: &[RustSource]) -> (r: Vec<Finding>)
        ensures
            line_errors(r@, GateId::ForbiddenCall, all_findings(sources@)),
    {
        let mut out: Vec<Finding> = Vec::new();
        let mut i: usize = 0;
        assert(sources@.take(0) =~= Seq::<RustSource>::empty());
        while i < sources.len()
            invariant
                i <= sources@.len(),
                line_errors(out@, GateId::ForbiddenCall, all_findings(sources@.take(i as int))),
            decreases sources.len() - i,
        {
            let src = &sources[i];
            assert(sources@.take(i + 1).drop_last() =~= sources@.take(i as int));
            assert(sources@.take(i + 1).last() == *src);
            let ghost before = out@;
            if src.class() == SourceClass::Library {
                let mut found = scan_source(src);
                proof {
                    lemma_line_errors_append(
                        before,
                        found@,
                        GateId::ForbiddenCall,
                        all_findings(sources@.take(i as int)),
                        source_findings(*src),
                    );
                }
                out.append(&mut found);
            } else {
                assert(out@ =~= before + Seq::<Finding>::empty());
                assert(line_errors(Seq::<Finding>::empty(), GateId::ForbiddenCall, Seq::empty()));
                proof {
                    lemma_line_errors_append(
                        before,
                        Seq::<Finding>::empty(),
                        GateId::ForbiddenCall,
                        all_findings(sources@.take(i as int)),
                        Seq::empty(),
                    );
                }
                assert(all_findings(sources@.take(i as int)) + Seq::empty() =~= all_findings(
                    sources@.take(i as int),
                ));
            }
            i = i + 1;
        }
        assert(sources@.take(i as int) =~= sources@);
        out
    }
}

/// The findings of one library source.
fn scan_source(src: &RustSource) -> (r: Vec<Finding>)
    ensures
        line_errors(
            r@,
            GateId::ForbiddenCall,
            call_findings(src.rel_view(), src.text_view(), list_calls(src.items())),
        ),
{
    let mut hits: Vec<(u32, String)> = Vec::new();
    collect_list(src.ast(), &mut hits);
    assert(hit_views(hits@) =~= list_calls(src.items()));
    let ghost hv = hit_views(hits@);
    let mut out: Vec<Finding> = Vec::new();
    let mut k: usize = 0;
    assert(hv.take(0) =~= Seq::<(u32, Seq<char>)>::empty());
    while k < hits.len()
        invariant
            k <= hits@.len(),
            hv == hit_views(hits@),
            hv == list_calls(src.items()),
            line_errors(out@, GateId::ForbiddenCall, call_findings(src.rel_view(), src.text_view(), hv.take(k as int))),
        decreases hits.len() - k,
    {
        let line = hits[k].0;
        assert(hv.take(k + 1).drop_last() =~= hv.take(k as int));
        assert(hv.take(k + 1).last() == (line, hits@[k as int].1@));
        if !line_has_justification(src, line) {
            let mut msg = "forbidden call `".to_string();
            push_str(&mut msg, hits[k].1.as_str());
            push_str(&mut msg, "` in library code (no justification comment on line)");
            let f = Finding::error(GateId::ForbiddenCall, Location::line(src.rel_path(), line), msg.as_str());
            let ghost before = out@;
            out.push(f);
            proof {
                let e = (src.rel_view(), line, call_message(hits@[k as int].1@));
                assert(line_errors(seq![f], GateId::ForbiddenCall, seq![e]));
                lemma_line_errors_append(
                    before,
                    seq![f],
                    GateId::ForbiddenCall,
                    call_findings(src.rel_view(), src.text_view(), hv.take(k as int)),
                    seq![e],
                );
                assert(before + seq![f] =~= out@);
            }
        } else {
            assert(call_findings(src.rel_view(), src.text_view(), hv.take(k + 1)) =~= call_findings(
                src.rel_view(),
                src.text_view(),
                hv.take(k as int),
            ));
        }
        k = k + 1;
    }
    assert(hv.take(k as int) =~= hv);
    out
}

impl Gate for ForbiddenCall {
    /// Always `GateId::ForbiddenCall`.
    open spec fn gate_id(&self) -> GateId {
        GateId::ForbiddenCall
    }

    fn id(&self) -> (g: GateId) {
        GateId::ForbiddenCall
    }
}

/// The banned macros are exactly the crash-prone `panic!`, `todo!` and
/// `unimplemented!` and the uninstrumented-IO `dbg!`, `println!` and
/// `eprintln!`: a library source whose only call is an unjustified
/// invocation of macro `m` at line `line` gets one error naming `m!` at
/// that line when `m` is one of them, and no finding otherwise.
pub proof fn lemma_banned_macros(src: RustSource, m: String, line: u32)
    requires
        src.class_view() == SourceClass::Library,
        src.items() == seq![Node::Macro { name: Some(m), line }],
        !justified(src.text_view(), line),
    ensures
        all_findings(seq![src]) == if m@ == "panic"@ || m@ == "todo"@ || m@ == "unimplemented"@
            || m@ == "dbg"@ || m@ == "println"@ || m@ == "eprintln"@ {
            seq![
                (
                    src.rel_view(),
                    line,
                    "forbidden call `"@ + m@ + "!"@ + "` in library code (no justification comment on line)"@,
                ),
            ]
        } else {
            Seq::empty()
        },
{
    let n = Node::Macro { name: Some(m), line };
    assert(seq![n].drop_last() =~= Seq::<Node>::empty());
    assert(seq![n].last() == n);
    assert(list_calls(Seq::<Node>::empty()) == Seq::<(u32, Seq<char>)>::empty());
    let file = src.rel_view();
    let text = src.text_view();
    assert(call_findings(file, text, Seq::<(u32, Seq<char>)>::empty()) == Seq::<
        (Seq<char>, u32, Seq<char>),
    >::empty());
    if banned_macro(m@) {
        let hits = seq![(line, m@ + "!"@)];
        assert(node_calls(n) == hits);
        assert(list_calls(seq![n]) =~= hits);
        assert(hits.drop_last() =~= Seq::<(u32, Seq<char>)>::empty());
        assert(hits.last() == (line, m@ + "!"@));
        assert(call_findings(file, text, hits) =~= seq![(file, line, call_message(m@ + "!"@))]);
        assert(call_message(m@ + "!"@) =~= "forbidden call `"@ + m@ + "!"@
            + "` in library code (no justification comment on line)"@);
    } else {
        assert(node_calls(n) == Seq::<(u32, Seq<char>)>::empty());
        assert(list_calls(seq![n]) =~= Seq::<(u32, Seq<char>)>::empty());
    }
    assert(seq![src].drop_last() =~= Seq::<RustSource>::empty());
    assert(seq![src].last() == src);
    assert(all_findings(Seq::<RustSource>::empty()) == Seq::<(Seq<char>, u32, Seq<char>)>::empty());
    assert(all_findings(seq![src]) =~= source_findings(src));
}

/// The banned methods are exactly `unwrap` and `expect`: a library source
/// whose only call is an unjustified method call `.name()` at line `line`
/// (with no call inside it) gets one error naming `.name()` at that line
/// when `name` is one of them, and no finding otherwise.
pub proof fn lemma_banned_methods(src: RustSource, name: String, line: u32, inner: Vec<Node>)
    requires
        src.class_view() == SourceClass::Library,
        inner@ == Seq::<Node>::empty(),
        src.items() == seq![Node::MethodCall { name, line, inner }],
        !justified(src.text_view(), line),
    ensures
        all_findings(seq![src]) == if name@ == "unwrap"@ || name@ == "expect"@ {
            seq![
                (
                    src.rel_view(),
                    line,
                    "forbidden call `"@ + ("."@ + name@ + "()"@)
                        + "` in library code (no justification comment on line)"@,
                ),
            ]
        } else {
            Seq::empty()
        },
{
    let n = Node::MethodCall { name, line, inner };
    assert(seq![n].drop_last() =~= Seq::<Node>::empty());
    assert(seq![n].last() == n);
    assert(list_calls(Seq::<Node>::empty()) == Seq::<(u32, Seq<char>)>::empty());
    assert(list_calls(inner@) == Seq::<(u32, Seq<char>)>::empty());
    let file = src.rel_view();
    let text = src.text_view();
    assert(call_findings(file, text, Seq::<(u32, Seq<char>)>::empty()) == Seq::<
        (Seq<char>, u32, Seq<char>),
    >::empty());
    let k = "."@ + name@ + "()"@;
    if banned_method(name@) {
        let hits = seq![(line, k)];
        assert(node_calls(n) =~= hits);
        assert(list_calls(seq![n]) =~= hits);
        assert(hits.drop_last() =~= Seq::<(u32, Seq<char>)>::empty());
        assert(hits.last() == (line, k));
        assert(call_findings(file, text, hits) =~= seq![(file, line, call_message(k))]);
    } else {
        assert(node_calls(n) =~= Seq::<(u32, Seq<char>)>::empty());
        assert(list_calls(seq![n]) =~= Seq::<(u32, Seq<char>)>::empty());
    }
    assert(seq![src].drop_last() =~= Seq::<RustSource>::empty());
    assert(seq![src].last() == src);
    assert(all_findings(Seq::<RustSource>::empty()) == Seq::<(Seq<char>, u32, Seq<char>)>::empty());
    assert(all_findings(seq![src]) =~= source_findings(src));
}

/// Calls are found wherever they stand in library code outside test
/// modules: wrapping a source's items in a plain inline module keeps its
/// findings, while wrapping them in a `#[cfg(test)]` module removes them
/// all.
pub proof fn lemma_modules_and_calls(a: RustSource, b: RustSource, c: RustSource, v: Vec<Node>)
    requires
        a.rel_view() == b.rel_view() && b.rel_view() == c.rel_view(),
        a.text_view() == b.text_view() && b.text_view() == c.text_view(),
        a.class_view() == b.class_view() && b.class_view() == c.class_view(),
        v@ == a.items(),
        b.items() == seq![Node::Mod { cfg_test: false, items: Some(v) }],
        c.items() == seq![Node::Mod { cfg_test: true, items: Some(v) }],
    ensures
        all_findings(seq![b]) == all_findings(seq![a]),
        all_findings(seq![c]) == Seq::<(Seq<char>, u32, Seq<char>)>::empty(),
{
    let mb = Node::Mod { cfg_test: false, items: Some(v) };
    let mc = Node::Mod { cfg_test: true, items: Some(v) };
    assert(list_calls(Seq::<Node>::empty()) == Seq::<(u32, Seq<char>)>::empty());
    assert(seq![mb].drop_last() =~= Seq::<Node>::empty());
    assert(seq![mb].last() == mb);
    assert(seq![mc].drop_last() =~= Seq::<Node>::empty());
    assert(seq![mc].last() == mc);
    assert(node_calls(mb) == list_calls(v@));
    assert(list_calls(seq![mb]) =~= list_calls(a.items()));
    assert(node_calls(mc) == Seq::<(u32, Seq<char>)>::empty());
    assert(list_calls(seq![mc]) =~= Seq::<(u32, Seq<char>)>::empty());
    assert(call_findings(c.rel_view(), c.text_view(), Seq::<(u32, Seq<char>)>::empty()) == Seq::<
        (Seq<char>, u32, Seq<char>),
    >::empty());
    assert(seq![a].drop_last() =~= Seq::<RustSource>::empty());
    assert(seq![b].drop_last() =~= Seq::<RustSource>::empty());
    assert(seq![c].drop_last() =~= Seq::<RustSource>::empty());
    assert(seq![c].last() == c);
    assert(all_findings(Seq::<RustSource>::empty()) == Seq::<(Seq<char>, u32, Seq<char>)>::empty());
    assert(source_findings(c) == Seq::<(Seq<char>, u32, Seq<char>)>::empty());
    assert(all_findings(seq![c]) =~= source_findings(c));
}

} // verus!
