//! `bug-assumption` gate: every public fn (and public method of an
//! inherent impl) in library code must have a `BUG ASSUMPTION:` comment
//! in the comment block attached above its signature.
//!
//! The attached block is climbed upwards from the line above the `fn`:
//! blank lines and attribute lines pass, comment lines pass unless they
//! hold the marker (then the fn is covered), and any other line ends the
//! climb, as does the window size (20 lines by default). Trait impls,
//! `pub(crate)` and narrower items, and `#[cfg(test)]` items are out of
//! scope.

use vstd::prelude::*;

use crate::finding::{lemma_line_errors_append, line_errors, Finding, Location};
use crate::gate::{Gate, GateId};
use crate::source::{window_of, Node, RustSource, SourceClass};
use crate::text::{
    chars_of, contains, contains_exec, has_prefix, is_blank, push_str, starts_with, trim, trim_exec,
};

verus! {

/// The public fns `impl` items declare, as (line, name).
pub open spec fn impl_fns(ns: Seq<Node>) -> Seq<(u32, Seq<char>)>
    decreases ns.len(),
{
    if ns.len() == 0 {
        Seq::empty()
    } else {
        impl_fns(ns.drop_last()) + match ns.last() {
            Node::Fn { name, line, is_pub, cfg_test, .. } => if is_pub && !cfg_test {
                seq![(line, name@)]
            } else {
                Seq::empty()
            },
            _ => Seq::empty(),
        }
    }
}

/// The public fns an item declares: a public fn itself, the public
/// methods of an inherent impl, the public fns of an inline module;
/// `#[cfg(test)]` items skipped.
pub open spec fn item_fns(n: Node) -> Seq<(u32, Seq<char>)>
    decreases n,
{
    match n {
        Node::Fn { name, line, is_pub, cfg_test, .. } => if is_pub && !cfg_test {
            seq![(line, name@)]
        } else {
            Seq::empty()
        },
        Node::Impl { trait_impl, cfg_test, items, .. } => if cfg_test || trait_impl {
            Seq::empty()
        } else {
            impl_fns(items@)
        },
        Node::Mod { cfg_test, items } => if cfg_test {
            Seq::empty()
        } else {
            match items {
                Some(v) => items_fns(v@),
                None => Seq::empty(),
            }
        },
        _ => Seq::empty(),
    }
}

/// The public fns a sequence of items declares, in order.
pub open spec fn items_fns(ns: Seq<Node>) -> Seq<(u32, Seq<char>)>
    decreases ns,
{
    if ns.len() == 0 {
        Seq::empty()
    } else {
        items_fns(ns.drop_last()) + item_fns(ns.last())
    }
}

/// A line that lets the climb go on without deciding: blank, a comment
/// without the marker, or an attribute.
pub open spec fn passes(line: Seq<char>) -> bool {
    line.len() == 0 || (has_prefix(line, "//"@) && !contains(line, "BUG ASSUMPTION:"@))
        || has_prefix(line, "#["@) || has_prefix(line, "#!["@)
}

/// Climbing from line `current` after `steps` lines, within `max`
/// lines, a comment holding the marker is reached.
pub open spec fn climb(text: Seq<char>, current: int, steps: int, max: int) -> bool
    decreases current,
{
    if current < 1 {
        false
    } else {
        let line = trim(window_of(text, current, current));
        if passes(line) {
            if current == 1 || steps + 1 >= max {
                false
            } else {
                climb(text, current - 1, steps + 1, max)
            }
        } else {
            has_prefix(line, "//"@)
        }
    }
}

/// The marker is attached to the fn at `fn_line`.
pub open spec fn attached(text: Seq<char>, fn_line: u32, max: u32) -> bool {
    fn_line > 1 && climb(text, fn_line - 1, 0, max as int)
}

/// The message for an unannotated public fn.
pub open spec fn fn_message(name: Seq<char>) -> Seq<char> {
    "missing BUG ASSUMPTION: comment for public fn `"@ + name + "`"@
}

/// The findings for the public fns `fns` of a file.
pub open spec fn fn_findings(file: Seq<char>, text: Seq<char>, max: u32, fns: Seq<(u32, Seq<char>)>) -> Seq<
    (Seq<char>, u32, Seq<char>),
>
    decreases fns.len(),
{
    if fns.len() == 0 {
        Seq::empty()
    } else {
        fn_findings(file, text, max, fns.drop_last()) + if attached(text, fns.last().0, max) {
            Seq::empty()
        } else {
            seq![(file, fns.last().0, fn_message(fns.last().1))]
        }
    }
}

/// The findings for one source: none unless it is library code.
pub open spec fn source_findings(max: u32, src: RustSource) -> Seq<(Seq<char>, u32, Seq<char>)> {
    if src.class_view() == SourceClass::Library {
        fn_findings(src.rel_view(), src.text_view(), max, items_fns(src.items()))
    } else {
        Seq::empty()
    }
}

/// The findings for a sequence of sources, in order.
pub open spec fn all_findings(max: u32, srcs: Seq<RustSource>) -> Seq<(Seq<char>, u32, Seq<char>)>
    decreases srcs.len(),
{
    if srcs.len() == 0 {
        Seq::empty()
    } else {
        all_findings(max, srcs.drop_last()) + source_findings(max, srcs.last())
    }
}

/// The characters of a sequence of (line, name) records.
pub open spec fn rec_views(v: Seq<(u32, String)>) -> Seq<(u32, Seq<char>)> {
    v.map_values(|h: (u32, String)| (h.0, h.1@))
}

/// Push one record.
fn push_rec(out: &mut Vec<(u32, String)>, line: u32, name: &String)
    ensures
        rec_views(final(out)@) == rec_views(old(out)@).push((line, name@)),
{
    out.push((line, name.clone()));
    assert(rec_views(out@) =~= rec_views(old(out)@).push((line, name@)));
}

/// Append the public methods of impl items `ns`.
fn collect_impl(ns: &Vec<Node>, out: &mut Vec<(u32, String)>)
    ensures
        rec_views(final(out)@) == rec_views(old(out)@) + impl_fns(ns@),
{
    let mut i: usize = 0;
    assert(ns@.take(0) =~= Seq::<Node>::empty());
    assert(rec_views(out@) =~= rec_views(old(out)@) + impl_fns(ns@.take(0)));
    while i < ns.len()
        invariant
            i <= ns@.len(),
            rec_views(out@) == rec_views(old(out)@) + impl_fns(ns@.take(i as int)),
        decreases ns.len() - i,
    {
        assert(ns@.take(i + 1).drop_last() =~= ns@.take(i as int));
        assert(ns@.take(i + 1).last() == ns@[i as int]);
        let ghost before = rec_views(out@);
        match &ns[i] {
            Node::Fn { name, line, is_pub, cfg_test, .. } => {
                if *is_pub && !*cfg_test {
                    push_rec(out, *line, name);
                }
            },
            _ => {},
        }
        assert(rec_views(out@) =~= rec_views(old(out)@) + impl_fns(ns@.take(i + 1)));
        i = i + 1;
    }
    assert(ns@.take(i as int) =~= ns@);
}

/// Append the public fns of items `ns`.
fn collect_items(ns: &Vec<Node>, out: &mut Vec<(u32, String)>)
    ensures
        rec_views(final(out)@) == rec_views(old(out)@) + items_fns(ns@),
    decreases ns@,
{
    let mut i: usize = 0;
    assert(ns@.take(0) =~= Seq::<Node>::empty());
    assert(rec_views(out@) =~= rec_views(old(out)@) + items_fns(ns@.take(0)));
    while i < ns.len()
        invariant
            i <= ns@.len(),
            rec_views(out@) == rec_views(old(out)@) + items_fns(ns@.take(i as int)),
        decreases ns.len() - i,
    {
        assert(ns@.take(i + 1).drop_last() =~= ns@.take(i as int));
        assert(ns@.take(i + 1).last() == ns@[i as int]);
        collect_item(&ns[i], out);
        i = i + 1;
    }
    assert(ns@.take(i as int) =~= ns@);
}

/// Append the public fns of item `n`.
fn collect_item(n: &Node, out: &mut Vec<(u32, String)>)
    ensures
        rec_views(final(out)@) == rec_views(old(out)@) + item_fns(*n),
    decreases *n,
{
    match n {
        Node::Fn { name, line, is_pub, cfg_test, .. } => {
            if *is_pub && !*cfg_test {
                push_rec(out, *line, name);
            }
        },
        Node::Impl { trait_impl, cfg_test, items, .. } => {
            if !*cfg_test && !*trait_impl {
                collect_impl(items, out);
            }
        },
        Node::Mod { cfg_test, items } => {
            if !*cfg_test {
                if let Some(v) = items {
                    collect_items(v, out);
                }
            }
        },
        _ => {},
    }
    assert(rec_views(out@) =~= rec_views(old(out)@) + item_fns(*n));
}

/// Whether the marker is attached to the fn at `fn_line` of `src`.
fn line_window_has_needle(src: &RustSource, fn_line: u32, max_search: u32) -> (r: bool)
    ensures
        r == attached(src.text_view(), fn_line, max_search),
{
    if fn_line <= 1 {
        return false;
    }
    let comment = chars_of("//");
    let needle = chars_of("BUG ASSUMPTION:");
    let attr = chars_of("#[");
    let inner_attr = chars_of("#![");
    let mut current: u32 = fn_line - 1;
    let mut steps: u32 = 0;
    while true
        invariant
            1 <= current < fn_line,
            steps < max_search || steps == 0,
            comment@ == "//"@,
            needle@ == "BUG ASSUMPTION:"@,
            attr@ == "#["@,
            inner_attr@ == "#!["@,
            climb(src.text_view(), current as int, steps as int, max_search as int) == attached(
                src.text_view(),
                fn_line,
                max_search,
            ),
        decreases current,
    {
        let win = src.line_window(current, current);
        let wv = chars_of(win.as_str());
        let line = trim_exec(wv.as_slice());
        let is_comment = starts_with(line.as_slice(), comment.as_slice());
        if line.len() == 0 {
        } else if is_comment {
            if contains_exec(line.as_slice(), needle.as_slice()) {
                proof {
                    reveal_strlit("//");
                    reveal_strlit("#[");
                    reveal_strlit("#![");
                    assert(has_prefix(line@, "//"@));
                    assert(line@.subrange(0, 2) == "//"@);
                    assert(line@.subrange(0, 2)[0] == line@[0]);
                    assert(line@[0] == '/');
                    assert(!has_prefix(line@, "#["@)) by {
                        if has_prefix(line@, "#["@) {
                            assert(line@.subrange(0, 2)[0] == line@[0]);
                        }
                    }
                    assert(!has_prefix(line@, "#!["@)) by {
                        if has_prefix(line@, "#!["@) {
                            assert(line@.subrange(0, 3)[0] == line@[0]);
                        }
                    }
                }
                return true;
            }
        } else if starts_with(line.as_slice(), attr.as_slice()) || starts_with(
            line.as_slice(),
            inner_attr.as_slice(),
        ) {
        } else {
            return false;
        }
        if current == 1 || steps + 1 >= max_search {
            return false;
        }
        current = current - 1;
        steps = steps + 1;
    }
    false
}

/// `bug-assumption` implementation.
#[derive(Debug, Default, Clone, Copy)]
#[non_exhaustive]
pub struct BugAssumption {
    /// How many lines above a public fn to search for the comment (0
    /// means the default, 20).
    pub window: u32,
}

impl BugAssumption {
    /// Doctrine default window size.
    pub const DEFAULT_WINDOW: u32 = 20;

    /// The window a gate with configured size `w` uses.
    pub open spec fn window_used(w: u32) -> u32 {
        if w == 0 {
            Self::DEFAULT_WINDOW
        } else {
            w
        }
    }

    /// A gate with a custom window size.
    pub fn with_window(window: u32) -> (g: Self)
        ensures
            g.window == window,
    {
        BugAssumption { window }
    }

    /// The window in force: the configured one, or the default when 0.
    pub fn effective_window(self) -> (w: u32)
        ensures
            w == Self::window_used(self.window),
    {
        if self.window == 0 {
            Self::DEFAULT_WINDOW
        } else {
            self.window
        }
    }

    /// Run on pre-loaded sources: one error per public fn of library
    /// code without an attached marker, in source order.
    pub fn run_on(self, sources: &[RustSource]) -> (r: Vec<Finding>)
        ensures
            line_errors(r@, GateId::BugAssumption, all_findings(Self::window_used(self.window), sources@)),
    {
        let window = self.effective_window();
        let mut out: Vec<Finding> = Vec::new();
        let mut i: usize = 0;
        assert(sources@.take(0) =~= Seq::<RustSource>::empty());
        while i < sources.len()
            invariant
                i <= sources@.len(),
                window == Self::window_used(self.window),
                line_errors(out@, GateId::BugAssumption, all_findings(window, sources@.take(i as int))),
            decreases sources.len() - i,
        {
            let src = &sources[i];
            assert(sources@.take(i + 1).drop_last() =~= sources@.take(i as int));
            assert(sources@.take(i + 1).last() == *src);
            let ghost before = out@;
            if src.class() == SourceClass::Library {
                let mut found = scan_source(src, window);
                proof {
                    lemma_line_errors_append(
                        before,
                        found@,
                        GateId::BugAssumption,
                        all_findings(window, sources@.take(i as int)),
                        source_findings(window, *src),
                    );
                }
                out.append(&mut found);
            } else {
                assert(all_findings(window, sources@.take(i + 1)) =~= all_findings(
                    window,
                    sources@.take(i as int),
                ));
            }
            i = i + 1;
        }
        assert(sources@.take(i as int) =~= sources@);
        out
    }
}

/// The findings of one library source.
fn scan_source(src: &RustSource, window: u32) -> (r: Vec<Finding>)
    ensures
        line_errors(
            r@,
            GateId::BugAssumption,
            fn_findings(src.rel_view(), src.text_view(), window, items_fns(src.items())),
        ),
{
    let mut fns: Vec<(u32, String)> = Vec::new();
    collect_items(src.ast(), &mut fns);
    assert(rec_views(fns@) =~= items_fns(src.items()));
    let ghost hv = rec_views(fns@);
    let mut out: Vec<Finding> = Vec::new();
    let mut k: usize = 0;
    assert(hv.take(0) =~= Seq::<(u32, Seq<char>)>::empty());
    while k < fns.len()
        invariant
            k <= fns@.len(),
            hv == rec_views(fns@),
            line_errors(
                out@,
                GateId::BugAssumption,
                fn_findings(src.rel_view(), src.text_view(), window, hv.take(k as int)),
            ),
        decreases fns.len() - k,
    {
        let line = fns[k].0;
        assert(hv.take(k + 1).drop_last() =~= hv.take(k as int));
        assert(hv.take(k + 1).last() == (line, fns@[k as int].1@));
        if !line_window_has_needle(src, line, window) {
            let mut msg = "missing BUG ASSUMPTION: comment for public fn `".to_string();
            push_str(&mut msg, fns[k].1.as_str());
            push_str(&mut msg, "`");
            let f = Finding::error(GateId::BugAssumption, Location::line(src.rel_path(), line), msg.as_str());
            let ghost before = out@;
            out.push(f);
            proof {
                let e = (src.rel_view(), line, fn_message(fns@[k as int].1@));
                assert(line_errors(seq![f], GateId::BugAssumption, seq![e]));
                lemma_line_errors_append(
                    before,
                    seq![f],
                    GateId::BugAssumption,
                    fn_findings(src.rel_view(), src.text_view(), window, hv.take(k as int)),
                    seq![e],
                );
                assert(before + seq![f] =~= out@);
            }
        } else {
            assert(fn_findings(src.rel_view(), src.text_view(), window, hv.take(k + 1)) =~= fn_findings(
                src.rel_view(),
                src.text_view(),
                window,
                hv.take(k as int),
            ));
        }
        k = k + 1;
    }
    assert(hv.take(k as int) =~= hv);
    out
}

impl Gate for BugAssumption {
    /// Always `GateId::BugAssumption`.
    open spec fn gate_id(&self) -> GateId {
        GateId::BugAssumption
    }

    fn id(&self) -> (g: GateId) {
        GateId::BugAssumption
    }
}

/// A plain inline module does not hide public fns from this check: a
/// library source whose items are wrapped in a `mod m { … }` without
/// `#[cfg(test)]` gets exactly the findings of the same source with the
/// items at top level.
pub proof fn lemma_inline_module_checked(max: u32, a: RustSource, b: RustSource, v: Vec<Node>)
    requires
        a.rel_view() == b.rel_view(),
        a.text_view() == b.text_view(),
        a.class_view() == b.class_view(),
        v@ == a.items(),
        b.items() == seq![Node::Mod { cfg_test: false, items: Some(v) }],
    ensures
        all_findings(max, seq![b]) == all_findings(max, seq![a]),
{
    let m = Node::Mod { cfg_test: false, items: Some(v) };
    assert(seq![m].drop_last() =~= Seq::<Node>::empty());
    assert(seq![m].last() == m);
    assert(items_fns(Seq::<Node>::empty()) == Seq::<(u32, Seq<char>)>::empty());
    assert(item_fns(m) == items_fns(v@));
    assert(items_fns(seq![m]) =~= items_fns(a.items()));
    assert(seq![b].drop_last() =~= Seq::<RustSource>::empty());
    assert(seq![a].drop_last() =~= Seq::<RustSource>::empty());
}

/// An unannotated public fn inside a plain inline module of library code
/// is reported, once, by name and at its line.
pub proof fn lemma_module_fn_reported(
    max: u32,
    src: RustSource,
    name: String,
    line: u32,
    test_attr: bool,
    unsafe_line: Option<u32>,
    body: Vec<Node>,
    items: Vec<Node>,
)
    requires
        src.class_view() == SourceClass::Library,
        items@ == seq![
            Node::Fn { name, line, is_pub: true, cfg_test: false, test_attr, unsafe_line, body },
        ],
        src.items() == seq![Node::Mod { cfg_test: false, items: Some(items) }],
        !attached(src.text_view(), line, max),
    ensures
        all_findings(max, seq![src]) == seq![
            (src.rel_view(), line, "missing BUG ASSUMPTION: comment for public fn `"@ + name@ + "`"@),
        ],
{
    let f = Node::Fn { name, line, is_pub: true, cfg_test: false, test_attr, unsafe_line, body };
    let m = Node::Mod { cfg_test: false, items: Some(items) };
    assert(seq![f].drop_last() =~= Seq::<Node>::empty());
    assert(seq![m].drop_last() =~= Seq::<Node>::empty());
    assert(seq![f].last() == f);
    assert(seq![m].last() == m);
    assert(items_fns(Seq::<Node>::empty()) == Seq::<(u32, Seq<char>)>::empty());
    assert(item_fns(f) == seq![(line, name@)]);
    assert(items_fns(seq![f]) =~= seq![(line, name@)]);
    assert(item_fns(m) == items_fns(items@));
    assert(items_fns(seq![m]) =~= seq![(line, name@)]);
    let fns = seq![(line, name@)];
    assert(fns.drop_last() =~= Seq::<(u32, Seq<char>)>::empty());
    assert(fns.last() == (line, name@));
    let file = src.rel_view();
    let text = src.text_view();
    assert(fn_findings(file, text, max, Seq::<(u32, Seq<char>)>::empty()) == Seq::<
        (Seq<char>, u32, Seq<char>),
    >::empty());
    assert(fn_findings(file, text, max, fns) =~= seq![(file, line, fn_message(name@))]);
    assert(source_findings(max, src) == seq![(file, line, fn_message(name@))]);
    assert(seq![src].drop_last() =~= Seq::<RustSource>::empty());
    assert(seq![src].last() == src);
    assert(all_findings(max, Seq::<RustSource>::empty()) == Seq::<(Seq<char>, u32, Seq<char>)>::empty());
    assert(all_findings(max, seq![src]) =~= seq![
        (src.rel_view(), line, "missing BUG ASSUMPTION: comment for public fn `"@ + name@ + "`"@),
    ]);
}

/// For fns alone, standing free or as methods of an inherent impl makes
/// no difference to which are checked.
proof fn lemma_fns_as_methods(ns: Seq<Node>)
    requires
        forall|k: int| 0 <= k < ns.len() ==> (#[trigger] ns[k]) is Fn,
    ensures
        impl_fns(ns) == items_fns(ns),
    decreases ns.len(),
{
    if ns.len() > 0 {
        assert forall|k: int| 0 <= k < ns.drop_last().len() implies (#[trigger] ns.drop_last()[k]) is Fn by {
            assert(ns.drop_last()[k] == ns[k]);
        }
        lemma_fns_as_methods(ns.drop_last());
        assert(ns.last() == ns[ns.len() - 1]);
        assert(ns.last() is Fn);
        assert(items_fns(ns) == items_fns(ns.drop_last()) + item_fns(ns.last()));
        assert(impl_fns(ns) == impl_fns(ns.drop_last()) + item_fns(ns.last()));
    }
}

/// Public methods of an inherent impl are checked like public fns, while
/// trait-impl methods and `#[cfg(test)]` code are out of scope: moving a
/// source's fns into an inherent `impl` keeps its findings, while moving
/// them into a trait impl or a `#[cfg(test)]` module leaves none.
pub proof fn lemma_impl_and_test_scope(
    max: u32,
    a: RustSource,
    b: RustSource,
    c: RustSource,
    d: RustSource,
    v: Vec<Node>,
    unsafe_line: Option<u32>,
)
    requires
        a.rel_view() == b.rel_view() && a.rel_view() == c.rel_view() && a.rel_view() == d.rel_view(),
        a.text_view() == b.text_view() && a.text_view() == c.text_view() && a.text_view()
            == d.text_view(),
        a.class_view() == b.class_view() && a.class_view() == c.class_view() && a.class_view()
            == d.class_view(),
        v@ == a.items(),
        forall|k: int| 0 <= k < v@.len() ==> (#[trigger] v@[k]) is Fn,
        b.items() == seq![Node::Impl { trait_impl: false, cfg_test: false, unsafe_line, items: v }],
        c.items() == seq![Node::Impl { trait_impl: true, cfg_test: false, unsafe_line, items: v }],
        d.items() == seq![Node::Mod { cfg_test: true, items: Some(v) }],
    ensures
        all_findings(max, seq![b]) == all_findings(max, seq![a]),
        all_findings(max, seq![c]) == Seq::<(Seq<char>, u32, Seq<char>)>::empty(),
        all_findings(max, seq![d]) == Seq::<(Seq<char>, u32, Seq<char>)>::empty(),
{
    let nb = Node::Impl { trait_impl: false, cfg_test: false, unsafe_line, items: v };
    let nc = Node::Impl { trait_impl: true, cfg_test: false, unsafe_line, items: v };
    let nd = Node::Mod { cfg_test: true, items: Some(v) };
    lemma_fns_as_methods(v@);
    assert(items_fns(Seq::<Node>::empty()) == Seq::<(u32, Seq<char>)>::empty());
    assert(seq![nb].drop_last() =~= Seq::<Node>::empty());
    assert(seq![nb].last() == nb);
    assert(seq![nc].drop_last() =~= Seq::<Node>::empty());
    assert(seq![nc].last() == nc);
    assert(seq![nd].drop_last() =~= Seq::<Node>::empty());
    assert(seq![nd].last() == nd);
    assert(item_fns(nb) == impl_fns(v@));
    assert(items_fns(seq![nb]) =~= items_fns(a.items()));
    assert(item_fns(nc) == Seq::<(u32, Seq<char>)>::empty());
    assert(item_fns(nd) == Seq::<(u32, Seq<char>)>::empty());
    assert(items_fns(seq![nc]) =~= Seq::<(u32, Seq<char>)>::empty());
    assert(items_fns(seq![nd]) =~= Seq::<(u32, Seq<char>)>::empty());
    let e = Seq::<(Seq<char>, u32, Seq<char>)>::empty();
    assert(fn_findings(a.rel_view(), a.text_view(), max, Seq::<(u32, Seq<char>)>::empty()) == e);
    assert(all_findings(max, Seq::<RustSource>::empty()) == e);
    assert(seq![a].drop_last() =~= Seq::<RustSource>::empty());
    assert(seq![b].drop_last() =~= Seq::<RustSource>::empty());
    assert(seq![c].drop_last() =~= Seq::<RustSource>::empty());
    assert(seq![d].drop_last() =~= Seq::<RustSource>::empty());
    assert(seq![c].last() == c);
    assert(seq![d].last() == d);
    assert(source_findings(max, c) == e);
    assert(source_findings(max, d) == e);
}

} // verus!
