//! Counting for the `test-density-aggregate` gate: tests against
//! public fns over a workspace.
//!
//! Tests are fns carrying a test attribute, plus one per line starting a
//! `proptest!` block. Public fns are the `pub` fns and `pub` methods of
//! inherent impls in library code outside `#[cfg(test)]` modules (tests
//! inside those modules still count). Trait-impl methods count only as
//! tests; trait declarations' methods do not count themselves.
//!
//! Comparing the ratio with the floor is floating-point work, done by the
//! caller on these counts.

use vstd::prelude::*;

use crate::source::{lines_of, split_lines, vec_views, Node, RustSource, SourceClass};
use crate::text::{has_prefix, starts_with, trim_start, trim_start_exec, chars_of};

verus! {

/// Where a fn stands, which decides how it is counted.
#[derive(Debug, Copy, Clone, PartialEq, Eq, Structural)]
pub enum Position {
    /// A free item (or one nested in a body).
    Item,
    /// An item of an inherent impl.
    InherentImpl,
    /// An item of a trait impl.
    TraitImpl,
    /// An item of a trait declaration.
    TraitDecl,
}

/// Tests and public fns counted so far.
#[derive(Debug, Default, Copy, Clone, PartialEq, Eq, Structural)]
pub struct Counts {
    /// Test fns (and `proptest!` blocks).
    pub tests: u32,
    /// Public fns of library code.
    pub public_fns: u32,
}

/// What a fn counts for itself: a test, else a public library fn.
pub open spec fn own_counts(test_attr: bool, is_pub: bool, in_lib: bool) -> (nat, nat) {
    if test_attr {
        (1, 0)
    } else if in_lib && is_pub {
        (0, 1)
    } else {
        (0, 0)
    }
}

/// Component-wise sum.
pub open spec fn plus(a: (nat, nat), b: (nat, nat)) -> (nat, nat) {
    (a.0 + b.0, a.1 + b.1)
}

/// (tests, public fns) of node `n` standing at `pos`, inside library
/// code when `in_lib`.
pub open spec fn node_counts(n: Node, pos: Position, in_lib: bool) -> (nat, nat)
    decreases n,
{
    match n {
        Node::Fn { is_pub, test_attr, body, .. } => match pos {
            Position::Item => plus(own_counts(test_attr, is_pub, in_lib), list_counts(body@, Position::Item, in_lib)),
            Position::InherentImpl => own_counts(test_attr, is_pub, in_lib),
            Position::TraitImpl => own_counts(test_attr, is_pub, in_lib),
            Position::TraitDecl => list_counts(body@, Position::Item, in_lib),
        },
        _ => if pos == Position::InherentImpl {
            (0, 0)
        } else {
            match n {
                Node::Impl { trait_impl, items, .. } => if trait_impl {
                    list_counts(items@, Position::TraitImpl, in_lib)
                } else {
                    list_counts(items@, Position::InherentImpl, in_lib)
                },
                Node::Trait { items, .. } => list_counts(items@, Position::TraitDecl, in_lib),
                Node::Mod { cfg_test, items } => match items {
                    Some(v) => list_counts(v@, Position::Item, in_lib && !cfg_test),
                    None => (0, 0),
                },
                Node::MethodCall { inner, .. } => list_counts(inner@, Position::Item, in_lib),
                Node::Unsafe { inner, .. } => list_counts(inner@, Position::Item, in_lib),
                Node::Group(g) => list_counts(g@, Position::Item, in_lib),
                _ => (0, 0),
            }
        },
    }
}

/// (tests, public fns) of a sequence of nodes at `pos`.
pub open spec fn list_counts(ns: Seq<Node>, pos: Position, in_lib: bool) -> (nat, nat)
    decreases ns,
{
    if ns.len() == 0 {
        (0, 0)
    } else {
        plus(list_counts(ns.drop_last(), pos, in_lib), node_counts(ns.last(), pos, in_lib))
    }
}

/// Lines starting (after indentation) a `proptest!` block.
pub open spec fn proptest_lines(lines: Seq<Seq<char>>) -> nat
    decreases lines.len(),
{
    if lines.len() == 0 {
        0
    } else {
        proptest_lines(lines.drop_last()) + if has_prefix(trim_start(lines.last()), "proptest!"@) {
            1nat
        } else {
            0nat
        }
    }
}

/// (tests, public fns) of one source.
pub open spec fn source_counts(src: RustSource) -> (nat, nat) {
    plus(
        list_counts(src.items(), Position::Item, src.class_view() == SourceClass::Library),
        (proptest_lines(lines_of(src.text_view())), 0),
    )
}

/// (tests, public fns) of a sequence of sources.
pub open spec fn total_counts(srcs: Seq<RustSource>) -> (nat, nat)
    decreases srcs.len(),
{
    if srcs.len() == 0 {
        (0, 0)
    } else {
        plus(total_counts(srcs.drop_last()), source_counts(srcs.last()))
    }
}

/// `n` saturated to `u32`.
pub open spec fn sat(n: int) -> int {
    if n <= u32::MAX {
        n
    } else {
        u32::MAX as int
    }
}

/// `acc` after adding `add` to `before`, saturating.
pub open spec fn added(before: Counts, add: (nat, nat), acc: Counts) -> bool {
    acc.tests == sat(before.tests + add.0) && acc.public_fns == sat(before.public_fns + add.1)
}

/// Saturating addition of one to a count.
fn bump(x: u32) -> (r: u32)
    ensures
        r == sat(x + 1),
{
    x.saturating_add(1)
}

/// Adding in two steps saturates like adding at once.
proof fn lemma_added_trans(a: Counts, b: Counts, c: Counts, x: (nat, nat), y: (nat, nat))
    requires
        added(a, x, b),
        added(b, y, c),
    ensures
        added(a, plus(x, y), c),
{
}

/// Count fn-ness of `n` at `pos` into `acc`.
fn count_node(n: &Node, pos: Position, in_lib: bool, acc: &mut Counts)
    ensures
        added(*old(acc), node_counts(*n, pos, in_lib), *final(acc)),
    decreases *n,
{
    match n {
        Node::Fn { is_pub, test_attr, body, .. } => {
            let ghost a0 = *acc;
            let counts_self = match pos {
                Position::Item => true,
                Position::InherentImpl => true,
                Position::TraitImpl => true,
                Position::TraitDecl => false,
            };
            if counts_self {
                if *test_attr {
                    acc.tests = bump(acc.tests);
                } else if in_lib && *is_pub {
                    acc.public_fns = bump(acc.public_fns);
                }
            }
            let ghost a1 = *acc;
            if pos == Position::Item || pos == Position::TraitDecl {
                count_list(body, Position::Item, in_lib, acc);
                proof {
                    if pos == Position::Item {
                        lemma_added_trans(
                            a0,
                            a1,
                            *acc,
                            own_counts(*test_attr, *is_pub, in_lib),
                            list_counts(body@, Position::Item, in_lib),
                        );
                    } else {
                        assert(a1 == a0);
                    }
                }
            }
        },
        Node::Impl { trait_impl, items, .. } => {
            if pos != Position::InherentImpl {
                if *trait_impl {
                    count_list(items, Position::TraitImpl, in_lib, acc);
                } else {
                    count_list(items, Position::InherentImpl, in_lib, acc);
                }
            }
        },
        Node::Trait { items, .. } => {
            if pos != Position::InherentImpl {
                count_list(items, Position::TraitDecl, in_lib, acc);
            }
        },
        Node::Mod { cfg_test, items } => {
            if pos != Position::InherentImpl {
                if let Some(v) = items {
                    count_list(v, Position::Item, in_lib && !*cfg_test, acc);
                }
            }
        },
        Node::MethodCall { inner, .. } => {
            if pos != Position::InherentImpl {
                count_list(inner, Position::Item, in_lib, acc);
            }
        },
        Node::Macro { .. } => {},
        Node::Unsafe { inner, .. } => {
            if pos != Position::InherentImpl {
                count_list(inner, Position::Item, in_lib, acc);
            }
        },
        Node::Group(g) => {
            if pos != Position::InherentImpl {
                count_list(g, Position::Item, in_lib, acc);
            }
        },
    }
}

/// Count the nodes `ns` at `pos` into `acc`.
fn count_list(ns: &Vec<Node>, pos: Position, in_lib: bool, acc: &mut Counts)
    ensures
        added(*old(acc), list_counts(ns@, pos, in_lib), *final(acc)),
    decreases ns@,
{
    let ghost a0 = *acc;
    let mut i: usize = 0;
    assert(ns@.take(0) =~= Seq::<Node>::empty());
    while i < ns.len()
        invariant
            i <= ns@.len(),
            added(a0, list_counts(ns@.take(i as int), pos, in_lib), *acc),
        decreases ns.len() - i,
    {
        assert(ns@.take(i + 1).drop_last() =~= ns@.take(i as int));
        assert(ns@.take(i + 1).last() == ns@[i as int]);
        let ghost before = *acc;
        count_node(&ns[i], pos, in_lib, acc);
        proof {
            lemma_added_trans(
                a0,
                before,
                *acc,
                list_counts(ns@.take(i as int), pos, in_lib),
                node_counts(ns@[i as int], pos, in_lib),
            );
        }
        i = i + 1;
    }
    assert(ns@.take(i as int) =~= ns@);
}

/// Count the `proptest!` lines of `text` into `acc`.
fn count_proptest_lines(text: &str, acc: &mut Counts)
    ensures
        added(*old(acc), (proptest_lines(lines_of(text@)), 0), *final(acc)),
{
    let chars = chars_of(text);
    let lines = split_lines(chars.as_slice());
    let ghost all = vec_views(lines@);
    let prefix = chars_of("proptest!");
    let ghost a0 = *acc;
    let mut i: usize = 0;
    assert(all.take(0) =~= Seq::<Seq<char>>::empty());
    while i < lines.len()
        invariant
            i <= lines@.len(),
            all == vec_views(lines@),
            all == lines_of(text@),
            prefix@ == "proptest!"@,
            added(a0, (proptest_lines(all.take(i as int)), 0), *acc),
        decreases lines.len() - i,
    {
        assert(all.take(i + 1).drop_last() =~= all.take(i as int));
        assert(all.take(i + 1).last() == lines@[i as int]@);
        let l = trim_start_exec(lines[i].as_slice());
        if starts_with(l.as_slice(), prefix.as_slice()) {
            acc.tests = bump(acc.tests);
        }
        i = i + 1;
    }
    assert(all.take(i as int) =~= all);
}

/// Count tests and public fns over `sources`, saturating at `u32::MAX`.
pub fn count(sources: &[RustSource]) -> (r: Counts)
    ensures
        r.tests == sat(total_counts(sources@).0 as int),
        r.public_fns == sat(total_counts(sources@).1 as int),
{
    let mut acc = Counts { tests: 0, public_fns: 0 };
    let ghost a0 = acc;
    let mut i: usize = 0;
    assert(sources@.take(0) =~= Seq::<RustSource>::empty());
    while i < sources.len()
        invariant
            i <= sources@.len(),
            a0 == (Counts { tests: 0, public_fns: 0 }),
            added(a0, total_counts(sources@.take(i as int)), acc),
        decreases sources.len() - i,
    {
        let src = &sources[i];
        assert(sources@.take(i + 1).drop_last() =~= sources@.take(i as int));
        assert(sources@.take(i + 1).last() == *src);
        let ghost before = acc;
        count_list(src.ast(), Position::Item, src.class().is_library(), &mut acc);
        let ghost mid = acc;
        count_proptest_lines(src.text(), &mut acc);
        proof {
            lemma_added_trans(
                before,
                mid,
                acc,
                list_counts(src.items(), Position::Item, src.class_view() == SourceClass::Library),
                (proptest_lines(lines_of(src.text_view())), 0),
            );
            lemma_added_trans(
                a0,
                before,
                acc,
                total_counts(sources@.take(i as int)),
                source_counts(*src),
            );
        }
        i = i + 1;
    }
    assert(sources@.take(i as int) =~= sources@);
    acc
}

/// Outside library code no fn is public surface.
proof fn lemma_node_no_public(n: Node, pos: Position)
    ensures
        node_counts(n, pos, false).1 == 0,
    decreases n,
{
    match n {
        Node::Fn { body, .. } => {
            lemma_list_no_public(body@, Position::Item);
        },
        Node::Impl { items, .. } => {
            lemma_list_no_public(items@, Position::TraitImpl);
            lemma_list_no_public(items@, Position::InherentImpl);
        },
        Node::Trait { items, .. } => {
            lemma_list_no_public(items@, Position::TraitDecl);
        },
        Node::Mod { items, .. } => {
            if let Some(v) = items {
                lemma_list_no_public(v@, Position::Item);
            }
        },
        Node::MethodCall { inner, .. } => {
            lemma_list_no_public(inner@, Position::Item);
        },
        Node::Unsafe { inner, .. } => {
            lemma_list_no_public(inner@, Position::Item);
        },
        Node::Group(g) => {
            lemma_list_no_public(g@, Position::Item);
        },
        _ => {},
    }
}

/// Outside library code no fn of a sequence is public surface.
proof fn lemma_list_no_public(ns: Seq<Node>, pos: Position)
    ensures
        list_counts(ns, pos, false).1 == 0,
    decreases ns,
{
    if ns.len() > 0 {
        lemma_list_no_public(ns.drop_last(), pos);
        lemma_node_no_public(ns.last(), pos);
    }
}

/// Nothing in a `#[cfg(test)]` module is public surface: adding such a
/// module to a source never changes its public-fn count, and never lowers
/// its test count.
pub proof fn lemma_cfg_test_module_not_public(a: RustSource, b: RustSource, v: Vec<Node>)
    requires
        a.text_view() == b.text_view(),
        a.class_view() == b.class_view(),
        b.items() == a.items().push(Node::Mod { cfg_test: true, items: Some(v) }),
    ensures
        total_counts(seq![b]).1 == total_counts(seq![a]).1,
        total_counts(seq![b]).0 >= total_counts(seq![a]).0,
{
    let m = Node::Mod { cfg_test: true, items: Some(v) };
    let lib = a.class_view() == SourceClass::Library;
    assert(b.items().drop_last() =~= a.items());
    assert(b.items().last() == m);
    lemma_list_no_public(v@, Position::Item);
    assert(node_counts(m, Position::Item, lib) == list_counts(v@, Position::Item, false));
    assert(seq![a].drop_last() =~= Seq::<RustSource>::empty());
    assert(seq![b].drop_last() =~= Seq::<RustSource>::empty());
    assert(seq![a].last() == a);
    assert(seq![b].last() == b);
}

/// A test fn inside a `#[cfg(test)]` module still counts as a test: adding
/// a module holding one `#[test]` fn (with an empty body) to a source adds
/// exactly one test and no public fn, whatever the fn's visibility.
pub proof fn lemma_cfg_test_module_tests_count(
    a: RustSource,
    b: RustSource,
    f: Node,
    v: Vec<Node>,
)
    requires
        a.text_view() == b.text_view(),
        a.class_view() == b.class_view(),
        f matches Node::Fn { test_attr, body, .. } && test_attr && body@.len() == 0,
        v@ == seq![f],
        b.items() == a.items().push(Node::Mod { cfg_test: true, items: Some(v) }),
    ensures
        total_counts(seq![b]).0 == total_counts(seq![a]).0 + 1,
        total_counts(seq![b]).1 == total_counts(seq![a]).1,
{
    let m = Node::Mod { cfg_test: true, items: Some(v) };
    let lib = a.class_view() == SourceClass::Library;
    assert(b.items().drop_last() =~= a.items());
    assert(b.items().last() == m);
    assert(seq![f].drop_last() =~= Seq::<Node>::empty());
    assert(seq![f].last() == f);
    assert(list_counts(Seq::<Node>::empty(), Position::Item, false) == (0nat, 0nat));
    match f {
        Node::Fn { body, .. } => {
            assert(body@ =~= Seq::<Node>::empty());
        },
        _ => {},
    }
    assert(node_counts(f, Position::Item, false) == (1nat, 0nat));
    assert(list_counts(v@, Position::Item, false) == (1nat, 0nat));
    assert(node_counts(m, Position::Item, lib) == (1nat, 0nat));
    assert(seq![a].drop_last() =~= Seq::<RustSource>::empty());
    assert(seq![b].drop_last() =~= Seq::<RustSource>::empty());
    assert(seq![a].last() == a);
    assert(seq![b].last() == b);
}

} // verus!
