//! `debug-remove` gate: any line holding the debug-removal marker fails
//! the build. Not ratchetable.
//!
//! The raw text is searched, not the syntax: a marker in a string or a
//! doc comment still marks dev-time debugging to strip before release.
//! The files that document this gate itself are exempt. The marker is
//! assembled from two halves so this file does not trip its own gate.

use vstd::prelude::*;

use crate::finding::{lemma_line_errors_append, line_errors, Finding, Location};
use crate::gate::{Gate, GateId};
use crate::source::RustSource;
use crate::text::{chars_of, contains, contains_exec, ends_with, has_suffix, push_str};

verus! {

/// The marker this gate hunts for.
pub open spec fn marker() -> Seq<char> {
    "DEBUG"@ + "-REMOVE:"@
}

/// The pieces of `s` after the partial piece `cur`, as
/// `str::split_inclusive('\n')` yields them: each keeps its newline, and
/// there is no empty last piece.
pub open spec fn pieces_from(s: Seq<char>, cur: Seq<char>) -> Seq<Seq<char>>
    decreases s.len(),
{
    if s.len() == 0 {
        if cur.len() > 0 {
            seq![cur]
        } else {
            Seq::empty()
        }
    } else if s[0] == '\n' {
        seq![cur.push('\n')] + pieces_from(s.drop_first(), Seq::empty())
    } else {
        pieces_from(s.drop_first(), cur.push(s[0]))
    }
}

/// The message of a marker finding.
pub open spec fn marker_message() -> Seq<char> {
    "DEBUG-REMOVE marker present (must be stripped before merge)"@
}

/// A 1-based line number saturated to `u32`.
pub open spec fn line_no(k: int) -> u32 {
    if k <= u32::MAX {
        k as u32
    } else {
        u32::MAX
    }
}

/// The findings for the lines `pieces` of file `file`: one per line
/// holding the marker.
pub open spec fn marker_findings(file: Seq<char>, pieces: Seq<Seq<char>>) -> Seq<(Seq<char>, u32, Seq<char>)>
    decreases pieces.len(),
{
    if pieces.len() == 0 {
        Seq::empty()
    } else {
        marker_findings(file, pieces.drop_last()) + if contains(pieces.last(), marker()) {
            seq![(file, line_no(pieces.len() as int), marker_message())]
        } else {
            Seq::empty()
        }
    }
}

/// The repo-relative suffixes of the files that document this gate.
pub open spec fn self_exempt_suffixes() -> Seq<Seq<char>> {
    seq![
        "crates/avp-rust/src/gates/debug_remove.rs"@,
        "crates/avp-rust/src/lib.rs"@,
        "crates/avp-core/src/gate.rs"@,
    ]
}

/// `rel` (with backslashes as slashes) is one of this gate's documenting
/// files.
pub open spec fn is_self_path_spec(rel: Seq<char>) -> bool {
    let s = crate::source::slashed(rel);
    exists|j: int| 0 <= j < 3 && has_suffix(s, self_exempt_suffixes()[j])
}

/// The findings for one source.
pub open spec fn source_findings(src: RustSource) -> Seq<(Seq<char>, u32, Seq<char>)> {
    if is_self_path_spec(src.rel_view()) {
        Seq::empty()
    } else {
        marker_findings(src.rel_view(), pieces_from(src.text_view(), Seq::empty()))
    }
}

/// The findings for a sequence of sources, in order.
pub open spec fn all_findings(srcs: Seq<RustSource>) -> Seq<(Seq<char>, u32, Seq<char>)>
    decreases srcs.len(),
{
    if srcs.len() == 0 {
        Seq::empty()
    } else {
        all_findings(srcs.drop_last()) + source_findings(srcs.last())
    }
}

/// Whether `rel` is one of this gate's documenting files.
pub fn is_self_path(rel: &str) -> (r: bool)
    ensures
        r == is_self_path_spec(rel@),
{
    let raw = chars_of(rel);
    let mut s: Vec<char> = Vec::new();
    let mut i: usize = 0;
    while i < raw.len()
        invariant
            i <= raw@.len(),
            raw@ == rel@,
            s@ == crate::source::slashed(raw@.take(i as int)),
        decreases raw.len() - i,
    {
        let c = raw[i];
        s.push(if c == '\\' { '/' } else { c });
        assert(crate::source::slashed(raw@.take(i + 1)) =~= crate::source::slashed(
            raw@.take(i as int),
        ).push(if c == '\\' { '/' } else { c }));
        i = i + 1;
    }
    assert(raw@.take(i as int) =~= rel@);
    let a = chars_of("crates/avp-rust/src/gates/debug_remove.rs");
    let b = chars_of("crates/avp-rust/src/lib.rs");
    let c = chars_of("crates/avp-core/src/gate.rs");
    let r = ends_with(s.as_slice(), a.as_slice()) || ends_with(s.as_slice(), b.as_slice()) || ends_with(
        s.as_slice(),
        c.as_slice(),
    );
    proof {
        let t = crate::source::slashed(rel@);
        if r {
            if has_suffix(t, a@) {
                assert(self_exempt_suffixes()[0] == a@);
            } else if has_suffix(t, b@) {
                assert(self_exempt_suffixes()[1] == b@);
            } else {
                assert(self_exempt_suffixes()[2] == c@);
            }
        } else {
            assert forall|j: int| 0 <= j < 3 implies !has_suffix(t, self_exempt_suffixes()[j]) by {
                if j == 0 {
                    assert(self_exempt_suffixes()[0] == a@);
                } else if j == 1 {
                    assert(self_exempt_suffixes()[1] == b@);
                } else {
                    assert(self_exempt_suffixes()[2] == c@);
                }
            }
        }
    }
    r
}

/// The findings of one (non-exempt) source.
fn scan_source(src: &RustSource) -> (r: Vec<Finding>)
    ensures
        line_errors(
            r@,
            GateId::DebugRemove,
            marker_findings(src.rel_view(), pieces_from(src.text_view(), Seq::empty())),
        ),
{
    let mut needle = "DEBUG".to_string();
    push_str(&mut needle, "-REMOVE:");
    let nv = chars_of(needle.as_str());
    let text = chars_of(src.text());
    let ghost all = pieces_from(text@, Seq::empty());
    let ghost mut done: Seq<Seq<char>> = Seq::empty();
    let mut cur: Vec<char> = Vec::new();
    let mut count: usize = 0;
    let mut out: Vec<Finding> = Vec::new();
    let mut i: usize = 0;
    assert(text@.skip(0) =~= text@);
    while i < text.len()
        invariant
            i <= text@.len(),
            nv@ == marker(),
            text@ == src.text_view(),
            all == pieces_from(text@, Seq::empty()),
            done + pieces_from(text@.skip(i as int), cur@) == all,
            count == done.len(),
            count + cur@.len() <= i,
            line_errors(out@, GateId::DebugRemove, marker_findings(src.rel_view(), done)),
        decreases text.len() - i,
    {
        let c = text[i];
        assert(text@.skip(i as int)[0] == c);
        assert(text@.skip(i as int).drop_first() =~= text@.skip(i + 1));
        cur.push(c);
        if c == '\n' {
            count = count + 1;
            let ghost piece = cur@;
            assert(done.push(piece) + pieces_from(text@.skip(i + 1), Seq::empty()) =~= done + (seq![
                piece,
            ] + pieces_from(text@.skip(i + 1), Seq::empty())));
            let ghost before = out@;
            if contains_exec(cur.as_slice(), nv.as_slice()) {
                let line: u32 = if count > 0xffff_ffffusize {
                    u32::MAX
                } else {
                    count as u32
                };
                let f = Finding::error(
                    GateId::DebugRemove,
                    Location::line(src.rel_path(), line),
                    "DEBUG-REMOVE marker present (must be stripped before merge)",
                );
                out.push(f);
                proof {
                    let e = (src.rel_view(), line, marker_message());
                    assert(line_errors(seq![f], GateId::DebugRemove, seq![e]));
                    lemma_line_errors_append(
                        before,
                        seq![f],
                        GateId::DebugRemove,
                        marker_findings(src.rel_view(), done),
                        seq![e],
                    );
                    assert(before + seq![f] =~= out@);
                    assert(done.push(piece).drop_last() =~= done);
                }
            } else {
                assert(done.push(piece).drop_last() =~= done);
            }
            proof {
                done = done.push(piece);
            }
            cur = Vec::new();
        }
        i = i + 1;
    }
    if cur.len() > 0 {
        count = count + 1;
        let ghost piece = cur@;
        assert(pieces_from(text@.skip(i as int), cur@) =~= seq![piece]);
        let ghost before = out@;
        if contains_exec(cur.as_slice(), nv.as_slice()) {
            let line: u32 = if count > 0xffff_ffffusize {
                u32::MAX
            } else {
                count as u32
            };
            let f = Finding::error(
                GateId::DebugRemove,
                Location::line(src.rel_path(), line),
                "DEBUG-REMOVE marker present (must be stripped before merge)",
            );
            out.push(f);
            proof {
                let e = (src.rel_view(), line, marker_message());
                assert(line_errors(seq![f], GateId::DebugRemove, seq![e]));
                lemma_line_errors_append(
                    before,
                    seq![f],
                    GateId::DebugRemove,
                    marker_findings(src.rel_view(), done),
                    seq![e],
                );
                assert(before + seq![f] =~= out@);
            }
        }
        assert(done.push(piece).drop_last() =~= done);
        assert(done.push(piece) =~= all);
    } else {
        assert(pieces_from(text@.skip(i as int), cur@) =~= Seq::<Seq<char>>::empty());
        assert(done =~= all);
    }
    out
}

/// `debug-remove` implementation.
#[derive(Debug, Default, Clone, Copy)]
#[non_exhaustive]
pub struct DebugRemove;

impl DebugRemove {
    /// Run on pre-loaded sources: one error per line holding the marker,
    /// in source order, this gate's documenting files excepted.
    pub fn run_on(&self, sources: &[RustSource]) -> (r: Vec<Finding>)
        ensures
            line_errors(r@, GateId::DebugRemove, all_findings(sources@)),
    {
        let mut out: Vec<Finding> = Vec::new();
        let mut i: usize = 0;
        assert(sources@.take(0) =~= Seq::<RustSource>::empty());
        while i < sources.len()
            invariant
                i <= sources@.len(),
                line_errors(out@, GateId::DebugRemove, all_findings(sources@.take(i as int))),
            decreases sources.len() - i,
        {
            let src = &sources[i];
            assert(sources@.take(i + 1).drop_last() =~= sources@.take(i as int));
            assert(sources@.take(i + 1).last() == *src);
            let ghost before = out@;
            if is_self_path(src.rel_path()) {
                assert(all_findings(sources@.take(i + 1)) =~= all_findings(sources@.take(i as int)));
            } else {
                let mut found = scan_source(src);
                proof {
                    lemma_line_errors_append(
                        before,
                        found@,
                        GateId::DebugRemove,
                        all_findings(sources@.take(i as int)),
                        source_findings(*src),
                    );
                }
                out.append(&mut found);
            }
            i = i + 1;
        }
        assert(sources@.take(i as int) =~= sources@);
        out
    }
}

impl Gate for DebugRemove {
    /// Always `GateId::DebugRemove`.
    open spec fn gate_id(&self) -> GateId {
        GateId::DebugRemove
    }

    fn id(&self) -> (g: GateId) {
        GateId::DebugRemove
    }
}

} // verus!
