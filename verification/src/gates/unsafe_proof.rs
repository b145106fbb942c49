//! `unsafe-proof` gate: every `unsafe { … }` block, `unsafe fn`,
//! `unsafe impl` and `unsafe trait` must have a `// SAFETY:` comment
//! within the lines just above it (5 by default).
//!
//! Library and binary code are scanned; test and bench files are exempt,
//! and so are `#[cfg(test)]` modules.

use vstd::prelude::*;

use crate::finding::{lemma_line_errors_append, line_errors, Finding, Location};
use crate::gate::{Gate, GateId};
use crate::source::{window_of, Node, RustSource, SourceClass};
use crate::text::{chars_of, contains, contains_exec, push_str};

verus! {

/// The `unsafe` sites of a node, as (line, what), in visit order.
/// `#[cfg(test)]` modules are skipped.
pub open spec fn node_sites(n: Node) -> Seq<(u32, Seq<char>)>
    decreases n,
{
    match n {
        Node::Fn { unsafe_line, body, .. } => (match unsafe_line {
            Some(l) => seq![(l, "unsafe fn"@)],
            None => Seq::empty(),
        }) + list_sites(body@),
        Node::Impl { unsafe_line, items, .. } => (match unsafe_line {
            Some(l) => seq![(l, "unsafe impl"@)],
            None => Seq::empty(),
        }) + list_sites(items@),
        Node::Trait { unsafe_line, items } => (match unsafe_line {
            Some(l) => seq![(l, "unsafe trait"@)],
            None => Seq::empty(),
        }) + list_sites(items@),
        Node::Mod { cfg_test, items } => if cfg_test {
            Seq::empty()
        } else {
            match items {
                Some(v) => list_sites(v@),
                None => Seq::empty(),
            }
        },
        Node::MethodCall { inner, .. } => list_sites(inner@),
        Node::Macro { .. } => Seq::empty(),
        Node::Unsafe { line, inner } => seq![(line, "unsafe block"@)] + list_sites(inner@),
        Node::Group(g) => list_sites(g@),
    }
}

/// The `unsafe` sites of a sequence of nodes, in order.
pub open spec fn list_sites(ns: Seq<Node>) -> Seq<(u32, Seq<char>)>
    decreases ns,
{
    if ns.len() == 0 {
        Seq::empty()
    } else {
        list_sites(ns.drop_last()) + node_sites(ns.last())
    }
}

/// A `// SAFETY:` comment stands in the `window` lines up to and
/// including line `line` of `text`.
pub open spec fn has_safety(text: Seq<char>, line: u32, window: u32) -> bool {
    let start = if line - window >= 1 {
        line - window
    } else {
        1
    };
    contains(window_of(text, start, line as int), "// SAFETY:"@)
}

/// The message for an unproven `unsafe` site.
pub open spec fn site_message(kind: Seq<char>) -> Seq<char> {
    "`"@ + kind + "` without `// SAFETY:` proof comment"@
}

/// The findings for the sites `hits` of file `file`: one per site with
/// no proof comment in its window.
pub open spec fn site_findings(
    file: Seq<char>,
    text: Seq<char>,
    window: u32,
    hits: Seq<(u32, Seq<char>)>,
) -> Seq<(Seq<char>, u32, Seq<char>)>
    decreases hits.len(),
{
    if hits.len() == 0 {
        Seq::empty()
    } else {
        site_findings(file, text, window, hits.drop_last()) + if has_safety(
            text,
            hits.last().0,
            window,
        ) {
            Seq::empty()
        } else {
            seq![(file, hits.last().0, site_message(hits.last().1))]
        }
    }
}

/// The findings for one source: none for test and bench files.
pub open spec fn source_findings(window: u32, src: RustSource) -> Seq<(Seq<char>, u32, Seq<char>)> {
    if src.class_view() == SourceClass::Test || src.class_view() == SourceClass::Bench {
        Seq::empty()
    } else {
        site_findings(src.rel_view(), src.text_view(), window, list_sites(src.items()))
    }
}

/// The findings for a sequence of sources, in order.
pub open spec fn all_findings(window: u32, srcs: Seq<RustSource>) -> Seq<(Seq<char>, u32, Seq<char>)>
    decreases srcs.len(),
{
    if srcs.len() == 0 {
        Seq::empty()
    } else {
        all_findings(window, srcs.drop_last()) + source_findings(window, srcs.last())
    }
}

/// The characters of a sequence of sites.
pub open spec fn site_views(v: Seq<(u32, &'static str)>) -> Seq<(u32, Seq<char>)> {
    v.map_values(|h: (u32, &'static str)| (h.0, h.1@))
}

/// Push one site.
fn push_site(out: &mut Vec<(u32, &'static str)>, line: u32, kind: &'static str)
    ensures
        site_views(final(out)@) == site_views(old(out)@).push((line, kind@)),
{
    out.push((line, kind));
    assert(site_views(out@) =~= site_views(old(out)@).push((line, kind@)));
}

/// Append the sites of `ns` to `out`.
fn collect_list(ns: &Vec<Node>, out: &mut Vec<(u32, &'static str)>)
    ensures
        site_views(final(out)@) == site_views(old(out)@) + list_sites(ns@),
    decreases ns@,
{
    let mut i: usize = 0;
    assert(ns@.take(0) =~= Seq::<Node>::empty());
    assert(site_views(out@) =~= site_views(old(out)@) + list_sites(ns@.take(0)));
    while i < ns.len()
        invariant
            i <= ns@.len(),
            site_views(out@) == site_views(old(out)@) + list_sites(ns@.take(i as int)),
        decreases ns.len() - i,
    {
        assert(ns@.take(i + 1).drop_last() =~= ns@.take(i as int));
        assert(ns@.take(i + 1).last() == ns@[i as int]);
        collect_node(&ns[i], out);
        i = i + 1;
    }
    assert(ns@.take(i as int) =~= ns@);
}

/// Append the sites of `n` to `out`.
fn collect_node(n: &Node, out: &mut Vec<(u32, &'static str)>)
    ensures
        site_views(final(out)@) == site_views(old(out)@) + node_sites(*n),
    decreases *n,
{
    match n {
        Node::Fn { unsafe_line, body, .. } => {
            if let Some(l) = unsafe_line {
                push_site(out, *l, "unsafe fn");
            }
            collect_list(body, out);
            assert(site_views(out@) =~= site_views(old(out)@) + node_sites(*n));
        },
        Node::Impl { unsafe_line, items, .. } => {
            if let Some(l) = unsafe_line {
                push_site(out, *l, "unsafe impl");
            }
            collect_list(items, out);
            assert(site_views(out@) =~= site_views(old(out)@) + node_sites(*n));
        },
        Node::Trait { unsafe_line, items } => {
            if let Some(l) = unsafe_line {
                push_site(out, *l, "unsafe trait");
            }
            collect_list(items, out);
            assert(site_views(out@) =~= site_views(old(out)@) + node_sites(*n));
        },
        Node::Mod { cfg_test, items } => {
            if !*cfg_test {
                if let Some(v) = items {
                    collect_list(v, out);
                }
            }
            assert(site_views(out@) =~= site_views(old(out)@) + node_sites(*n));
        },
        Node::MethodCall { inner, .. } => collect_list(inner, out),
        Node::Macro { .. } => {
            assert(site_views(out@) =~= site_views(old(out)@) + node_sites(*n));
        },
        Node::Unsafe { line, inner } => {
            push_site(out, *line, "unsafe block");
            collect_list(inner, out);
            assert(site_views(out@) =~= site_views(old(out)@) + node_sites(*n));
        },
        Node::Group(g) => collect_list(g, out),
    }
}

/// `unsafe-proof` implementation.
#[derive(Debug, Default, Clone, Copy)]
#[non_exhaustive]
pub struct UnsafeProof {
    /// Lines of context to search for the `// SAFETY:` proof (0 means
    /// the default, 5).
    pub window: u32,
}

/// The window size used when none is configured.
pub const UNSAFE_DEFAULT_WINDOW: u32 = 5;

impl UnsafeProof {
    /// The window a gate with configured size `w` uses.
    pub open spec fn window_used(w: u32) -> u32 {
        if w == 0 {
            UNSAFE_DEFAULT_WINDOW
        } else {
            w
        }
    }

    /// The window in force: the configured one, or the default when 0.
    pub fn effective_window(self) -> (w: u32)
        ensures
            w == Self::window_used(self.window),
    {
        if self.window == 0 {
            UNSAFE_DEFAULT_WINDOW
        } else {
            self.window
        }
    }

    /// Run on pre-loaded sources: one error per `unsafe` site without a
    /// proof comment in its window, test and bench files excepted.
    pub fn run_on(self, sources: &[RustSource]) -> (r: Vec<Finding>)
        ensures
            line_errors(r@, GateId::UnsafeProof, all_findings(Self::window_used(self.window), sources@)),
    {
        let window = self.effective_window();
        let mut out: Vec<Finding> = Vec::new();
        let mut i: usize = 0;
        assert(sources@.take(0) =~= Seq::<RustSource>::empty());
        while i < sources.len()
            invariant
                i <= sources@.len(),
                window == Self::window_used(self.window),
                line_errors(out@, GateId::UnsafeProof, all_findings(window, sources@.take(i as int))),
            decreases sources.len() - i,
        {
            let src = &sources[i];
            assert(sources@.take(i + 1).drop_last() =~= sources@.take(i as int));
            assert(sources@.take(i + 1).last() == *src);
            let ghost before = out@;
            let class = src.class();
            if class == SourceClass::Test || class == SourceClass::Bench {
                assert(all_findings(window, sources@.take(i + 1)) =~= all_findings(
                    window,
                    sources@.take(i as int),
                ));
            } else {
                let mut found = scan_source(src, window);
                proof {
                    lemma_line_errors_append(
                        before,
                        found@,
                        GateId::UnsafeProof,
                        all_findings(window, sources@.take(i as int)),
                        source_findings(window, *src),
                    );
                }
                out.append(&mut found);
            }
            i = i + 1;
        }
        assert(sources@.take(i as int) =~= sources@);
        out
    }
}

/// Whether a `// SAFETY:` comment stands within `window` lines up to
/// line `line` of `src`.
fn window_has_safety(src: &RustSource, line: u32, window: u32) -> (r: bool)
    ensures
        r == has_safety(src.text_view(), line, window),
{
    let start = if line > window && line - window >= 1 {
        line - window
    } else {
        1
    };
    let win = src.line_window(start, line);
    let w = chars_of(win.as_str());
    let needle = chars_of("// SAFETY:");
    contains_exec(w.as_slice(), needle.as_slice())
}

/// The findings of one scanned source.
fn scan_source(src: &RustSource, window: u32) -> (r: Vec<Finding>)
    ensures
        line_errors(
            r@,
            GateId::UnsafeProof,
            site_findings(src.rel_view(), src.text_view(), window, list_sites(src.items())),
        ),
{
    let mut hits: Vec<(u32, &'static str)> = Vec::new();
    collect_list(src.ast(), &mut hits);
    assert(site_views(hits@) =~= list_sites(src.items()));
    let ghost hv = site_views(hits@);
    let mut out: Vec<Finding> = Vec::new();
    let mut k: usize = 0;
    assert(hv.take(0) =~= Seq::<(u32, Seq<char>)>::empty());
    while k < hits.len()
        invariant
            k <= hits@.len(),
            hv == site_views(hits@),
            line_errors(
                out@,
                GateId::UnsafeProof,
                site_findings(src.rel_view(), src.text_view(), window, hv.take(k as int)),
            ),
        decreases hits.len() - k,
    {
        let (line, kind) = hits[k];
        assert(hv.take(k + 1).drop_last() =~= hv.take(k as int));
        assert(hv.take(k + 1).last() == (line, kind@));
        if !window_has_safety(src, line, window) {
            let mut msg = "`".to_string();
            push_str(&mut msg, kind);
            push_str(&mut msg, "` without `// SAFETY:` proof comment");
            let f = Finding::error(GateId::UnsafeProof, Location::line(src.rel_path(), line), msg.as_str());
            let ghost before = out@;
            out.push(f);
            proof {
                let e = (src.rel_view(), line, site_message(kind@));
                assert(line_errors(seq![f], GateId::UnsafeProof, seq![e]));
                lemma_line_errors_append(
                    before,
                    seq![f],
                    GateId::UnsafeProof,
                    site_findings(src.rel_view(), src.text_view(), window, hv.take(k as int)),
                    seq![e],
                );
                assert(before + seq![f] =~= out@);
            }
        } else {
            assert(site_findings(src.rel_view(), src.text_view(), window, hv.take(k + 1))
                =~= site_findings(src.rel_view(), src.text_view(), window, hv.take(k as int)));
        }
        k = k + 1;
    }
    assert(hv.take(k as int) =~= hv);
    out
}

impl Gate for UnsafeProof {
    /// Always `GateId::UnsafeProof`.
    open spec fn gate_id(&self) -> GateId {
        GateId::UnsafeProof
    }

    fn id(&self) -> (g: GateId) {
        GateId::UnsafeProof
    }
}

/// The items of an `impl` block are searched like any other code: a
/// source whose items are wrapped in an `impl` block (without `unsafe`)
/// gets exactly the findings of the same source with the items at top
/// level, so an `unsafe` block inside a method is reported.
pub proof fn lemma_impl_items_searched(
    window: u32,
    a: RustSource,
    b: RustSource,
    trait_impl: bool,
    cfg_test: bool,
    v: Vec<Node>,
)
    requires
        a.rel_view() == b.rel_view(),
        a.text_view() == b.text_view(),
        a.class_view() == b.class_view(),
        v@ == a.items(),
        b.items() == seq![Node::Impl { trait_impl, cfg_test, unsafe_line: None, items: v }],
    ensures
        all_findings(window, seq![b]) == all_findings(window, seq![a]),
{
    let n = Node::Impl { trait_impl, cfg_test, unsafe_line: None, items: v };
    assert(seq![n].drop_last() =~= Seq::<Node>::empty());
    assert(seq![n].last() == n);
    assert(list_sites(Seq::<Node>::empty()) == Seq::<(u32, Seq<char>)>::empty());
    assert(node_sites(n) =~= list_sites(v@));
    assert(list_sites(seq![n]) =~= list_sites(a.items()));
    assert(seq![b].drop_last() =~= Seq::<RustSource>::empty());
    assert(seq![a].drop_last() =~= Seq::<RustSource>::empty());
}

/// An `unsafe` block is an `unsafe` site wherever it stands: one without
/// a `// SAFETY:` comment in its window, alone in a method of an `impl`
/// block of non-test code, is reported once, at its line.
pub proof fn lemma_unsafe_block_in_method_reported(
    window: u32,
    src: RustSource,
    line: u32,
    method: Node,
    items: Vec<Node>,
    body: Vec<Node>,
    inner: Vec<Node>,
    trait_impl: bool,
    cfg_test: bool,
)
    requires
        src.class_view() != SourceClass::Test,
        src.class_view() != SourceClass::Bench,
        inner@ == Seq::<Node>::empty(),
        body@ == seq![Node::Unsafe { line, inner }],
        method matches Node::Fn { unsafe_line, body: b, .. } && unsafe_line is None && b == body,
        items@ == seq![method],
        src.items() == seq![Node::Impl { trait_impl, cfg_test, unsafe_line: None, items }],
        !has_safety(src.text_view(), line, window),
    ensures
        all_findings(window, seq![src]) == seq![
            (src.rel_view(), line, "`"@ + "unsafe block"@ + "` without `// SAFETY:` proof comment"@),
        ],
{
    let u = Node::Unsafe { line, inner };
    assert(list_sites(Seq::<Node>::empty()) == Seq::<(u32, Seq<char>)>::empty());
    assert(seq![u].drop_last() =~= Seq::<Node>::empty());
    assert(seq![u].last() == u);
    assert(node_sites(u) =~= seq![(line, "unsafe block"@)]);
    assert(list_sites(body@) =~= seq![(line, "unsafe block"@)]);
    assert(node_sites(method) =~= seq![(line, "unsafe block"@)]);
    assert(seq![method].drop_last() =~= Seq::<Node>::empty());
    assert(seq![method].last() == method);
    assert(list_sites(items@) =~= seq![(line, "unsafe block"@)]);
    let n = Node::Impl { trait_impl, cfg_test, unsafe_line: None, items };
    assert(node_sites(n) =~= seq![(line, "unsafe block"@)]);
    assert(seq![n].drop_last() =~= Seq::<Node>::empty());
    assert(seq![n].last() == n);
    let hits = seq![(line, "unsafe block"@)];
    assert(list_sites(src.items()) =~= hits);
    assert(hits.drop_last() =~= Seq::<(u32, Seq<char>)>::empty());
    assert(hits.last() == (line, "unsafe block"@));
    let file = src.rel_view();
    let text = src.text_view();
    assert(site_findings(file, text, window, Seq::<(u32, Seq<char>)>::empty()) == Seq::<
        (Seq<char>, u32, Seq<char>),
    >::empty());
    assert(site_findings(file, text, window, hits) =~= seq![(file, line, site_message("unsafe block"@))]);
    assert(seq![src].drop_last() =~= Seq::<RustSource>::empty());
    assert(seq![src].last() == src);
    assert(all_findings(window, Seq::<RustSource>::empty()) == Seq::<(Seq<char>, u32, Seq<char>)>::empty());
    assert(all_findings(window, seq![src]) =~= source_findings(window, src));
}

} // verus!
