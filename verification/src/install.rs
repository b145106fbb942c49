//! Installing the canonical sibling files: the file set with the release
//! tag substituted, the per-file plan against what a repository already
//! holds, the writes a run performs, and the text a run prints.

use vstd::prelude::*;

use crate::source::{lines_of, split_lines, vec_views};
use crate::text::{
    chars_of, decimal, has_prefix, occurs_at, occurs_at_exec, push_char, push_chars, push_decimal,
    push_str, str_eq,
};

verus! {

// ───────────────────────────── templates ─────────────────────────────

/// Placeholder the workflow template carries for the release tag.
pub const VERSION_PLACEHOLDER: &'static str = "{{VERSION}}";

/// The sibling workflow: runs the avp composite action pinned to a
/// release tag.
pub const AVP_WORKFLOW: &'static str = "name: avp

on:
  push:
    branches: [main]
  pull_request:

jobs:
  avp:
    runs-on: ubuntu-latest
    steps:
      - uses: actions/checkout@v4
      - uses: PlausiDen/PlausiDen-AVP-Doctrine@{{VERSION}}
        with:
          language: rust
";

/// Starter ratchet file: no overrides, one commented example.
pub const RATCHET_STARTER: &'static str = "# avp-ratchet.toml: temporary, signed, time-boxed gate overrides.
#
# [[overrides]]
# gate          = \"bug-assumption\"
# crate         = \"my-crate\"
# file          = \"src/legacy/.*\"
# reason        = \"Why this gate is relaxed, and until when.\"
# signed_by     = \"someone@example.com\"
# opened        = \"2026-01-01\"
# expires_after = \"2026-03-01\"
";

/// Canonical cargo-deny configuration.
pub const DENY: &'static str = "[advisories]
version = 2
yanked = \"deny\"

[licenses]
version = 2
allow = [\"MIT\", \"Apache-2.0\", \"BSD-3-Clause\", \"Unicode-3.0\"]

[bans]
multiple-versions = \"warn\"
wildcards = \"deny\"

[sources]
unknown-registry = \"deny\"
unknown-git = \"deny\"
";

/// Canonical clippy tuning.
pub const CLIPPY: &'static str = "disallowed-macros = [
  { path = \"std::println\", reason = \"use tracing in library code\" },
  { path = \"std::eprintln\", reason = \"use tracing in library code\" },
  { path = \"std::dbg\", reason = \"debug output must not ship\" },
]
";

/// Canonical rustfmt configuration.
pub const RUSTFMT: &'static str = "edition = \"2021\"
max_width = 100
";

/// Canonical toolchain pin.
pub const RUST_TOOLCHAIN: &'static str = "[toolchain]
channel = \"stable\"
components = [\"clippy\", \"rustfmt\"]
";

// ───────────────────────────── substitution ─────────────────────────────

/// `s` with every non-overlapping occurrence of `pat`, leftmost first,
/// replaced by `rep` (`str::replace`, for a non-empty `pat`).
pub open spec fn replaced(s: Seq<char>, pat: Seq<char>, rep: Seq<char>) -> Seq<char>
    decreases s.len(),
{
    if s.len() == 0 || pat.len() == 0 {
        s
    } else if has_prefix(s, pat) {
        rep + replaced(s.skip(pat.len() as int), pat, rep)
    } else {
        seq![s[0]] + replaced(s.skip(1), pat, rep)
    }
}

/// `s` with each occurrence of `pat` replaced by `rep`.
pub fn replace_all(s: &str, pat: &str, rep: &str) -> (r: String)
    requires
        pat@.len() > 0,
    ensures
        r@ == replaced(s@, pat@, rep@),
{
    let sc = chars_of(s);
    let pc = chars_of(pat);
    let rc = chars_of(rep);
    let mut out = String::new();
    let mut i: usize = 0;
    assert(sc@.skip(0) =~= sc@);
    while i < sc.len()
        invariant
            i <= sc@.len(),
            sc@ == s@,
            pc@ == pat@,
            rc@ == rep@,
            pat@.len() > 0,
            out@ + replaced(sc@.skip(i as int), pc@, rc@) == replaced(s@, pat@, rep@),
        decreases sc.len() - i,
    {
        let ghost rest = sc@.skip(i as int);
        let ghost before = out@;
        if occurs_at_exec(sc.as_slice(), pc.as_slice(), i) {
            assert(rest.subrange(0, pc@.len() as int) =~= sc@.subrange(i as int, i + pc@.len()));
            assert(has_prefix(rest, pc@));
            assert(rest.skip(pc@.len() as int) =~= sc@.skip(i + pc@.len()));
            push_chars(&mut out, rc.as_slice());
            assert(out@ + replaced(sc@.skip(i + pc@.len()), pc@, rc@) =~= before + replaced(
                rest,
                pc@,
                rc@,
            ));
            i = i + pc.len();
        } else {
            assert(!has_prefix(rest, pc@)) by {
                if has_prefix(rest, pc@) {
                    assert(rest.subrange(0, pc@.len() as int) =~= sc@.subrange(
                        i as int,
                        i + pc@.len(),
                    ));
                    assert(occurs_at(sc@, pc@, i as int));
                }
            }
            assert(rest.skip(1) =~= sc@.skip(i + 1));
            push_char(&mut out, sc[i]);
            assert(out@ + replaced(sc@.skip(i + 1), pc@, rc@) =~= before + replaced(
                rest,
                pc@,
                rc@,
            ));
            i = i + 1;
        }
    }
    assert(sc@.skip(i as int) =~= Seq::<char>::empty());
    assert(out@ + Seq::<char>::empty() =~= out@);
    out
}

// ───────────────────────────── file set ─────────────────────────────

/// The files `avp install` lays down, as (repo-relative path, content),
/// with the workflow pinned to `tag`.
pub open spec fn canonical_set(tag: Seq<char>) -> Seq<(Seq<char>, Seq<char>)> {
    seq![
        (".github/workflows/avp.yml"@, replaced(AVP_WORKFLOW@, VERSION_PLACEHOLDER@, tag)),
        ("avp-ratchet.toml"@, RATCHET_STARTER@),
        ("deny.toml"@, DENY@),
        ("clippy.toml"@, CLIPPY@),
        ("rustfmt.toml"@, RUSTFMT@),
        ("rust-toolchain.toml"@, RUST_TOOLCHAIN@),
    ]
}

/// The views of a list of (path, content) pairs.
pub open spec fn pair_views(v: Seq<(String, String)>) -> Seq<(Seq<char>, Seq<char>)> {
    v.map_values(|p: (String, String)| (p.0@, p.1@))
}

/// The canonical file set that `avp install` writes, with the workflow
/// pinned to `version_tag` (such as `"v0.1.0"`): the workflow, a starter
/// ratchet file and the lint and toolchain configurations.
pub fn canonical_files(version_tag: &str) -> (r: Vec<(String, String)>)
    ensures
        pair_views(r@) == canonical_set(version_tag@),
{
    proof {
        reveal_strlit("{{VERSION}}");
    }
    let workflow = replace_all(AVP_WORKFLOW, VERSION_PLACEHOLDER, version_tag);
    let mut v: Vec<(String, String)> = Vec::new();
    v.push((".github/workflows/avp.yml".to_string(), workflow));
    v.push(("avp-ratchet.toml".to_string(), RATCHET_STARTER.to_string()));
    v.push(("deny.toml".to_string(), DENY.to_string()));
    v.push(("clippy.toml".to_string(), CLIPPY.to_string()));
    v.push(("rustfmt.toml".to_string(), RUSTFMT.to_string()));
    v.push(("rust-toolchain.toml".to_string(), RUST_TOOLCHAIN.to_string()));
    assert(pair_views(v@) =~= canonical_set(version_tag@));
    v
}

// ───────────────────────────── plans ─────────────────────────────

/// Per-file plan computed before any write happens.
#[derive(Debug, Clone, PartialEq, Eq)]
#[non_exhaustive]
pub enum FilePlan {
    /// Path doesn't exist; it will be created.
    Create {
        /// Repo-relative path.
        rel: String,
        /// Content to write.
        content: String,
    },
    /// Path exists and matches the canonical content: no action.
    Identical {
        /// Repo-relative path.
        rel: String,
    },
    /// Path exists with different content; `--force` overwrites it.
    Diverged {
        /// Repo-relative path.
        rel: String,
        /// What the file holds now.
        existing: String,
        /// What it should hold.
        canonical: String,
    },
}

/// A plan, with its texts as characters.
pub enum PlanView {
    /// See [`FilePlan::Create`].
    Create { rel: Seq<char>, content: Seq<char> },
    /// See [`FilePlan::Identical`].
    Identical { rel: Seq<char> },
    /// See [`FilePlan::Diverged`].
    Diverged { rel: Seq<char>, existing: Seq<char>, canonical: Seq<char> },
}

impl View for FilePlan {
    type V = PlanView;

    open spec fn view(&self) -> PlanView {
        match self {
            FilePlan::Create { rel, content } => PlanView::Create { rel: rel@, content: content@ },
            FilePlan::Identical { rel } => PlanView::Identical { rel: rel@ },
            FilePlan::Diverged { rel, existing, canonical } => PlanView::Diverged {
                rel: rel@,
                existing: existing@,
                canonical: canonical@,
            },
        }
    }
}

impl PlanView {
    /// The path a plan is about.
    pub open spec fn rel(self) -> Seq<char> {
        match self {
            PlanView::Create { rel, .. } => rel,
            PlanView::Identical { rel } => rel,
            PlanView::Diverged { rel, .. } => rel,
        }
    }
}

/// The plan for one canonical file, given what the repository holds at
/// that path (`None` when nothing is there).
pub open spec fn plan_for(rel: Seq<char>, canonical: Seq<char>, existing: Option<Seq<char>>) -> PlanView {
    match existing {
        None => PlanView::Create { rel, content: canonical },
        Some(e) => if e == canonical {
            PlanView::Identical { rel }
        } else {
            PlanView::Diverged { rel, existing: e, canonical }
        },
    }
}

/// The views of a list of plans.
pub open spec fn plan_views(v: Seq<FilePlan>) -> Seq<PlanView> {
    v.map_values(|p: FilePlan| p@)
}

/// The views of a list of optional contents.
pub open spec fn opt_views(v: Seq<Option<String>>) -> Seq<Option<Seq<char>>> {
    v.map_values(|o: Option<String>| match o {
        Some(s) => Some(s@),
        None => None,
    })
}

impl FilePlan {
    /// The repo-relative path this plan is about.
    pub fn rel(&self) -> (r: &String)
        ensures
            r@ == self@.rel(),
    {
        match self {
            FilePlan::Create { rel, .. } => rel,
            FilePlan::Identical { rel } => rel,
            FilePlan::Diverged { rel, .. } => rel,
        }
    }

    /// Whether applying this plan without `--force` would block.
    pub fn blocks_default(&self) -> (r: bool)
        ensures
            r == (self@ is Diverged),
    {
        matches!(self, FilePlan::Diverged { .. })
    }

    /// The plan for one file: create it when absent, leave it when it
    /// holds the canonical content, report it as diverged otherwise.
    pub fn decide(rel: String, canonical: String, existing: Option<String>) -> (r: Self)
        ensures
            r@ == plan_for(rel@, canonical@, match existing {
                Some(e) => Some(e@),
                None => None,
            }),
    {
        match existing {
            None => FilePlan::Create { rel, content: canonical },
            Some(e) => {
                if str_eq(e.as_str(), canonical.as_str()) {
                    FilePlan::Identical { rel }
                } else {
                    FilePlan::Diverged { rel, existing: e, canonical }
                }
            },
        }
    }
}

/// One plan per canonical file, in order, given for each what the
/// repository holds at its path.
pub fn plan(files: &Vec<(String, String)>, existing: &Vec<Option<String>>) -> (r: Vec<FilePlan>)
    requires
        files@.len() == existing@.len(),
    ensures
        r@.len() == files@.len(),
        forall|i: int|
            0 <= i < files@.len() ==> (#[trigger] r@[i])@ == plan_for(
                pair_views(files@)[i].0,
                pair_views(files@)[i].1,
                opt_views(existing@)[i],
            ),
{
    let mut out: Vec<FilePlan> = Vec::new();
    let mut i: usize = 0;
    while i < files.len()
        invariant
            files@.len() == existing@.len(),
            i <= files@.len(),
            out@.len() == i,
            forall|k: int|
                0 <= k < i ==> (#[trigger] out@[k])@ == plan_for(
                    pair_views(files@)[k].0,
                    pair_views(files@)[k].1,
                    opt_views(existing@)[k],
                ),
        decreases files.len() - i,
    {
        let e: Option<String> = match &existing[i] {
            Some(s) => Some(s.clone()),
            None => None,
        };
        let p = FilePlan::decide(files[i].0.clone(), files[i].1.clone(), e);
        out.push(p);
        i = i + 1;
    }
    out
}

// ───────────────────────────── applying ─────────────────────────────

/// What applying `plans` writes, in order, as (path, content): created
/// files and, under `force`, overwritten diverged ones. Without `force`
/// the run stops at the first diverged plan (`stop` is its index);
/// writes before it still happen.
pub open spec fn apply_writes(plans: Seq<PlanView>, force: bool) -> (Seq<(Seq<char>, Seq<char>)>, Option<int>)
    decreases plans.len(),
{
    if plans.len() == 0 {
        (Seq::empty(), None)
    } else {
        let rest = apply_writes(plans.drop_first(), force);
        let shifted = match rest.1 {
            Some(i) => Some(i + 1),
            None => None,
        };
        match plans[0] {
            PlanView::Create { rel, content } => (seq![(rel, content)] + rest.0, shifted),
            PlanView::Identical { .. } => (rest.0, shifted),
            PlanView::Diverged { rel, canonical, .. } => if force {
                (seq![(rel, canonical)] + rest.0, shifted)
            } else {
                (Seq::empty(), Some(0))
            },
        }
    }
}

/// Why applying plans stopped.
#[derive(Debug, Clone, PartialEq, Eq)]
pub struct Blocked {
    /// The diverged path that stopped the run.
    pub rel: String,
}

impl Blocked {
    /// The message the run fails with.
    pub fn message(&self) -> (r: String)
        ensures
            r@ == self.rel@ + " diverges from canonical; pass --force to overwrite"@,
    {
        let mut s = String::new();
        push_str(&mut s, self.rel.as_str());
        push_str(&mut s, " diverges from canonical; pass --force to overwrite");
        s
    }
}

/// The writes applying `plans` performs, in order, and the diverged plan
/// that stops the run when `force` is off. The count of files written
/// is the length of the first component.
pub fn apply(plans: &Vec<FilePlan>, force: bool) -> (r: (Vec<(String, String)>, Option<Blocked>))
    ensures
        pair_views(r.0@) == apply_writes(plan_views(plans@), force).0,
        match apply_writes(plan_views(plans@), force).1 {
            Some(i) => r.1 matches Some(b) && b.rel@ == plan_views(plans@)[i].rel(),
            None => r.1 is None,
        },
{
    let ghost pv = plan_views(plans@);
    let mut i: usize = plans.len();
    let mut writes: Vec<(String, String)> = Vec::new();
    let mut blocked: Option<Blocked> = None;
    let ghost mut stop: Option<int> = None;
    assert(pv.skip(i as int) =~= Seq::<PlanView>::empty());
    while i > 0
        invariant
            i <= plans@.len(),
            pv == plan_views(plans@),
            pair_views(writes@) == apply_writes(pv.skip(i as int), force).0,
            stop == apply_writes(pv.skip(i as int), force).1,
            match stop {
                Some(j) => blocked matches Some(b) && 0 <= j && i + j < pv.len() && b.rel@ == pv[i + j].rel(),
                None => blocked is None,
            },
        decreases i,
    {
        i = i - 1;
        let ghost tail = pv.skip(i as int);
        assert(tail.drop_first() =~= pv.skip(i + 1));
        assert(tail[0] == plans@[i as int]@);
        let ghost prev = writes@;
        match &plans[i] {
            FilePlan::Create { rel, content } => {
                writes.insert(0, (rel.clone(), content.clone()));
            },
            FilePlan::Identical { .. } => {},
            FilePlan::Diverged { rel, canonical, .. } => {
                if force {
                    writes.insert(0, (rel.clone(), canonical.clone()));
                } else {
                    writes = Vec::new();
                    blocked = Some(Blocked { rel: rel.clone() });
                }
            },
        }
        proof {
            stop = apply_writes(tail, force).1;
        }
    }
    assert(pv.skip(0) =~= pv);
    (writes, blocked)
}


// ───────────────────────────── rendering ─────────────────────────────

/// Each line of `lines` behind `prefix`, each ended by a newline.
pub open spec fn prefixed(lines: Seq<Seq<char>>, prefix: Seq<char>) -> Seq<char>
    decreases lines.len(),
{
    if lines.len() == 0 {
        Seq::empty()
    } else {
        prefix + lines[0] + "\n"@ + prefixed(lines.drop_first(), prefix)
    }
}

/// The number of UTF-8 bytes of `s`, as `str::len` returns it.
pub open spec fn byte_len(s: Seq<char>) -> nat {
    (vstd::utf8::encode_utf8(s).len() as usize) as nat
}

/// The dry-run rendering of one plan.
pub open spec fn plan_text(p: PlanView) -> Seq<char> {
    match p {
        PlanView::Create { rel, content } => "+ would create "@ + rel + "\n"@ + prefixed(
            lines_of(content),
            "  + "@,
        ) + "\n"@,
        PlanView::Identical { rel } => "= identical "@ + rel + "\n"@,
        PlanView::Diverged { rel, existing, canonical } => "! diverged "@ + rel
            + " (use --force to overwrite)\n  existing ("@ + decimal(byte_len(existing))
            + " bytes):\n"@ + prefixed(lines_of(existing), "  - "@) + "\n  canonical ("@
            + decimal(byte_len(canonical)) + " bytes):\n"@ + prefixed(lines_of(canonical), "  + "@)
            + "\n"@,
    }
}

/// Appends each line of `s` to `out`, behind `prefix` and ended by a
/// newline.
pub fn push_prefixed_lines(out: &mut String, s: &str, prefix: &str)
    ensures
        final(out)@ == old(out)@ + prefixed(lines_of(s@), prefix@),
{
    let sc = chars_of(s);
    let lines = split_lines(sc.as_slice());
    let ghost all = vec_views(lines@);
    let ghost start = out@;
    let mut i: usize = 0;
    assert(all.skip(0) =~= all);
    while i < lines.len()
        invariant
            i <= lines@.len(),
            all == vec_views(lines@),
            all == lines_of(s@),
            out@ + prefixed(all.skip(i as int), prefix@) == start + prefixed(all, prefix@),
        decreases lines.len() - i,
    {
        let ghost before = out@;
        let ghost rest = all.skip(i as int);
        assert(rest.drop_first() =~= all.skip(i + 1));
        assert(rest[0] == lines@[i as int]@);
        push_str(out, prefix);
        push_chars(out, lines[i].as_slice());
        push_char(out, '\n');
        proof {
            reveal_strlit("\n");
        }
        assert(out@ + prefixed(all.skip(i + 1), prefix@) =~= before + prefixed(rest, prefix@));
        i = i + 1;
    }
    assert(all.skip(i as int) =~= Seq::<Seq<char>>::empty());
    assert(out@ + Seq::<char>::empty() =~= out@);
}

/// Each line of `s` behind `prefix`, each ended by a newline.
pub fn prefix_lines(s: &str, prefix: &str) -> (r: String)
    ensures
        r@ == prefixed(lines_of(s@), prefix@),
{
    let mut out = String::new();
    push_prefixed_lines(&mut out, s, prefix);
    out
}

/// Appends the decimal byte length of `s`.
fn push_byte_len(out: &mut String, s: &String)
    ensures
        final(out)@ == old(out)@ + decimal(byte_len(s@)),
{
    let n: usize = s.as_str().len();
    push_decimal(out, n as u64);
}

/// A diff-like view of one plan, for `--dry-run`.
pub fn render_plan(p: &FilePlan) -> (r: String)
    ensures
        r@ == plan_text(p@),
{
    let mut s = String::new();
    match p {
        FilePlan::Create { rel, content } => {
            push_str(&mut s, "+ would create ");
            push_str(&mut s, rel.as_str());
            push_str(&mut s, "\n");
            push_prefixed_lines(&mut s, content.as_str(), "  + ");
            push_str(&mut s, "\n");
        },
        FilePlan::Identical { rel } => {
            push_str(&mut s, "= identical ");
            push_str(&mut s, rel.as_str());
            push_str(&mut s, "\n");
        },
        FilePlan::Diverged { rel, existing, canonical } => {
            push_str(&mut s, "! diverged ");
            push_str(&mut s, rel.as_str());
            push_str(&mut s, " (use --force to overwrite)\n  existing (");
            push_byte_len(&mut s, existing);
            push_str(&mut s, " bytes):\n");
            push_prefixed_lines(&mut s, existing.as_str(), "  - ");
            push_str(&mut s, "\n  canonical (");
            push_byte_len(&mut s, canonical);
            push_str(&mut s, " bytes):\n");
            push_prefixed_lines(&mut s, canonical.as_str(), "  + ");
            push_str(&mut s, "\n");
        },
    }
    assert(s@ =~= plan_text(p@));
    s
}

// ───────────────────────────── run reports ─────────────────────────────

/// How many plans are diverged ones.
pub open spec fn count_diverged(ps: Seq<PlanView>) -> nat
    decreases ps.len(),
{
    if ps.len() == 0 {
        0
    } else {
        (if ps[0] is Diverged { 1nat } else { 0nat }) + count_diverged(ps.drop_first())
    }
}

/// How many plans are identical ones.
pub open spec fn count_identical(ps: Seq<PlanView>) -> nat
    decreases ps.len(),
{
    if ps.len() == 0 {
        0
    } else {
        (if ps[0] is Identical { 1nat } else { 0nat }) + count_identical(ps.drop_first())
    }
}

/// The plans' dry-run renderings, one after the other.
pub open spec fn dry_run_text(ps: Seq<PlanView>) -> Seq<char>
    decreases ps.len(),
{
    if ps.len() == 0 {
        Seq::empty()
    } else {
        plan_text(ps[0]) + dry_run_text(ps.drop_first())
    }
}

/// The counts of identical and diverged plans.
pub fn plan_counts(plans: &Vec<FilePlan>) -> (r: (usize, usize))
    ensures
        r.0 == count_identical(plan_views(plans@)),
        r.1 == count_diverged(plan_views(plans@)),
{
    let ghost pv = plan_views(plans@);
    let mut i: usize = plans.len();
    let n: usize = plans.len();
    let mut identical: usize = 0;
    let mut diverged: usize = 0;
    assert(pv.skip(i as int) =~= Seq::<PlanView>::empty());
    while i > 0
        invariant
            i <= plans@.len(),
            pv == plan_views(plans@),
            n == plans@.len(),
            identical == count_identical(pv.skip(i as int)),
            diverged == count_diverged(pv.skip(i as int)),
            identical + i <= n,
            diverged + i <= n,
        decreases i,
    {
        i = i - 1;
        let ghost tail = pv.skip(i as int);
        assert(tail.drop_first() =~= pv.skip(i + 1));
        assert(tail[0] == plans@[i as int]@);
        match &plans[i] {
            FilePlan::Identical { .. } => identical = identical + 1,
            FilePlan::Diverged { .. } => diverged = diverged + 1,
            FilePlan::Create { .. } => {},
        }
    }
    assert(pv.skip(0) =~= pv);
    (identical, diverged)
}

/// What `--dry-run` prints, and whether it exits with failure (some
/// file diverges).
pub fn dry_run_report(plans: &Vec<FilePlan>) -> (r: (String, bool))
    ensures
        r.0@ == dry_run_text(plan_views(plans@)),
        r.1 == (count_diverged(plan_views(plans@)) > 0),
{
    let ghost pv = plan_views(plans@);
    let mut out = String::new();
    let mut i: usize = 0;
    assert(pv.skip(0) =~= pv);
    while i < plans.len()
        invariant
            i <= plans@.len(),
            pv == plan_views(plans@),
            out@ + dry_run_text(pv.skip(i as int)) == dry_run_text(pv),
        decreases plans.len() - i,
    {
        let ghost before = out@;
        let ghost rest = pv.skip(i as int);
        assert(rest.drop_first() =~= pv.skip(i + 1));
        assert(rest[0] == plans@[i as int]@);
        let t = render_plan(&plans[i]);
        push_str(&mut out, t.as_str());
        assert(out@ + dry_run_text(pv.skip(i + 1)) =~= before + dry_run_text(rest));
        i = i + 1;
    }
    assert(pv.skip(i as int) =~= Seq::<PlanView>::empty());
    assert(out@ + Seq::<char>::empty() =~= out@);
    let (_, diverged) = plan_counts(plans);
    (out, diverged > 0)
}

/// The report line of each diverged plan, in order.
pub open spec fn blocker_texts(ps: Seq<PlanView>) -> Seq<Seq<char>>
    decreases ps.len(),
{
    if ps.len() == 0 {
        Seq::empty()
    } else {
        (if ps[0] is Diverged {
            seq!["avp install: "@ + plan_text(ps[0])]
        } else {
            Seq::empty()
        }) + blocker_texts(ps.drop_first())
    }
}

/// The refusal of a run without `--force` when files diverge: one
/// report line per diverged plan and the error message, or `None` when
/// nothing diverges.
pub fn blocker_report(plans: &Vec<FilePlan>) -> (r: Option<(Vec<String>, String)>)
    ensures
        count_diverged(plan_views(plans@)) == 0 <==> r is None,
        r matches Some(b) ==> {
            &&& b.1@ == decimal(count_diverged(plan_views(plans@)))
                + " file(s) diverge \u{2014} re-run with --force or --dry-run"@
            &&& crate::text::string_views(b.0@) == blocker_texts(plan_views(plans@))
        },
{
    let (_, diverged) = plan_counts(plans);
    if diverged == 0 {
        return None;
    }
    let ghost pv = plan_views(plans@);
    let mut lines: Vec<String> = Vec::new();
    let mut i: usize = plans.len();
    assert(pv.skip(i as int) =~= Seq::<PlanView>::empty());
    while i > 0
        invariant
            i <= plans@.len(),
            pv == plan_views(plans@),
            crate::text::string_views(lines@) == blocker_texts(pv.skip(i as int)),
        decreases i,
    {
        i = i - 1;
        let ghost tail = pv.skip(i as int);
        assert(tail.drop_first() =~= pv.skip(i + 1));
        assert(tail[0] == plans@[i as int]@);
        let ghost before = lines@;
        if plans[i].blocks_default() {
            let mut line = String::new();
            push_str(&mut line, "avp install: ");
            let t = render_plan(&plans[i]);
            push_str(&mut line, t.as_str());
            lines.insert(0, line);
            assert(crate::text::string_views(lines@) =~= seq!["avp install: "@ + plan_text(tail[0])]
                + crate::text::string_views(before));
        } else {
            assert(crate::text::string_views(lines@) =~= Seq::<Seq<char>>::empty()
                + crate::text::string_views(before));
        }
    }
    assert(pv.skip(0) =~= pv);
    let mut msg = String::new();
    push_decimal(&mut msg, diverged as u64);
    push_str(&mut msg, " file(s) diverge \u{2014} re-run with --force or --dry-run");
    Some((lines, msg))
}

/// The closing line of a run that wrote `written` files.
pub fn summary_line(written: usize, plans: &Vec<FilePlan>) -> (r: String)
    ensures
        r@ == "avp install: "@ + decimal(written as nat) + " file(s) written, "@ + decimal(
            count_identical(plan_views(plans@)),
        ) + " identical, "@ + decimal(count_diverged(plan_views(plans@)))
            + " diverged"@,
{
    let (identical, diverged) = plan_counts(plans);
    let mut s = String::new();
    push_str(&mut s, "avp install: ");
    push_decimal(&mut s, written as u64);
    push_str(&mut s, " file(s) written, ");
    push_decimal(&mut s, identical as u64);
    push_str(&mut s, " identical, ");
    push_decimal(&mut s, diverged as u64);
    push_str(&mut s, " diverged");
    s
}


// ───────────────────────────── laws ─────────────────────────────

/// With `--force` a run is never refused, and it writes one file per plan
/// that is not identical: identical files are left alone.
pub proof fn lemma_force_never_blocks(ps: Seq<PlanView>)
    ensures
        apply_writes(ps, true).1 is None,
        apply_writes(ps, true).0.len() + count_identical(ps) == ps.len(),
    decreases ps.len(),
{
    if ps.len() > 0 {
        lemma_force_never_blocks(ps.drop_first());
    }
}

/// Without `--force` a run is refused exactly when some file diverges,
/// and then it stops at the first diverged file.
pub proof fn lemma_default_blocks_iff_diverged(ps: Seq<PlanView>)
    ensures
        apply_writes(ps, false).1 is Some <==> count_diverged(ps) > 0,
        apply_writes(ps, false).1 matches Some(i) ==> 0 <= i < ps.len() && ps[i] is Diverged
            && forall|j: int| 0 <= j < i ==> !(ps[j] is Diverged),
    decreases ps.len(),
{
    if ps.len() > 0 {
        lemma_default_blocks_iff_diverged(ps.drop_first());
        let rest = ps.drop_first();
        if !(ps[0] is Diverged) {
            if let Some(i) = apply_writes(rest, false).1 {
                assert forall|j: int| 0 <= j < i + 1 implies !(ps[j] is Diverged) by {
                    if j > 0 {
                        assert(ps[j] == rest[j - 1]);
                    }
                }
            }
        }
    }
}

/// A file that already holds its canonical content is left alone, and
/// every plan is about the file it was made for.
pub proof fn lemma_plan_for_installed(rel: Seq<char>, canonical: Seq<char>, existing: Option<Seq<char>>)
    ensures
        plan_for(rel, canonical, existing).rel() == rel,
        existing == Some(canonical) ==> plan_for(rel, canonical, existing) is Identical,
        existing is None ==> plan_for(rel, canonical, existing) is Create,
        existing matches Some(e) && e != canonical ==> plan_for(rel, canonical, existing) is Diverged,
{
}

} // verus!
