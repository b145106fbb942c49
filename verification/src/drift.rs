//! Portfolio drift: how each sibling repository stands against the
//! canonical files `avp install` lays down, the portfolio totals, and the
//! markdown report and issue text built from them.

use vstd::prelude::*;

use crate::install::{count_diverged, plan_views, FilePlan, PlanView};
use crate::text::{
    decimal, lemma_lex_irreflexive, lemma_lex_total, lemma_lex_transitive, lex_lt, push_decimal,
    push_str, str_eq, str_lt, string_views,
};

verus! {

/// Drift status for a single sibling.
#[derive(Debug, Clone, Copy, PartialEq, Eq, Structural)]
#[non_exhaustive]
pub enum DriftStatus {
    /// Every canonical file present and identical.
    Clean,
    /// At least one canonical file is missing entirely.
    Missing,
    /// At least one canonical file exists but diverges.
    Diverged,
}

/// The label a status is reported under.
pub open spec fn status_label(s: DriftStatus) -> Seq<char> {
    match s {
        DriftStatus::Clean => "clean"@,
        DriftStatus::Missing => "missing"@,
        DriftStatus::Diverged => "diverged"@,
    }
}

/// How many plans create a missing file.
pub open spec fn count_missing(ps: Seq<PlanView>) -> nat
    decreases ps.len(),
{
    if ps.len() == 0 {
        0
    } else {
        (if ps[0] is Create { 1nat } else { 0nat }) + count_missing(ps.drop_first())
    }
}

/// A sibling's status from its plans: diverged if any file diverges,
/// else missing if any file is absent, else clean.
pub open spec fn status_of(ps: Seq<PlanView>) -> DriftStatus {
    if count_diverged(ps) > 0 {
        DriftStatus::Diverged
    } else if count_missing(ps) > 0 {
        DriftStatus::Missing
    } else {
        DriftStatus::Clean
    }
}

impl DriftStatus {
    /// Stable lower-case label.
    pub fn label(self) -> (r: &'static str)
        ensures
            r@ == status_label(self),
    {
        match self {
            DriftStatus::Clean => "clean",
            DriftStatus::Missing => "missing",
            DriftStatus::Diverged => "diverged",
        }
    }

    /// Whether the sibling drifted (anything but clean).
    pub fn is_drift(self) -> (r: bool)
        ensures
            r == (self != DriftStatus::Clean),
    {
        !matches!(self, DriftStatus::Clean)
    }
}

/// The numbers of missing and diverged plans.
pub fn plan_tallies(plans: &Vec<FilePlan>) -> (r: (usize, usize))
    ensures
        r.0 == count_missing(plan_views(plans@)),
        r.1 == count_diverged(plan_views(plans@)),
{
    let ghost pv = plan_views(plans@);
    let n: usize = plans.len();
    let mut i: usize = n;
    let mut missing: usize = 0;
    let mut diverged: usize = 0;
    assert(pv.skip(i as int) =~= Seq::<PlanView>::empty());
    while i > 0
        invariant
            i <= n,
            n == plans@.len(),
            pv == plan_views(plans@),
            missing == count_missing(pv.skip(i as int)),
            diverged == count_diverged(pv.skip(i as int)),
            missing + i <= n,
            diverged + i <= n,
        decreases i,
    {
        i = i - 1;
        let ghost tail = pv.skip(i as int);
        assert(tail.drop_first() =~= pv.skip(i + 1));
        assert(tail[0] == plans@[i as int]@);
        match &plans[i] {
            FilePlan::Create { .. } => missing = missing + 1,
            FilePlan::Diverged { .. } => diverged = diverged + 1,
            FilePlan::Identical { .. } => {},
        }
    }
    assert(pv.skip(0) =~= pv);
    (missing, diverged)
}

/// Per-sibling result.
#[derive(Debug)]
#[non_exhaustive]
pub struct SiblingDrift {
    /// Repository root.
    pub root: String,
    /// Directory name, as reported.
    pub name: String,
    /// One plan per canonical file.
    pub plans: Vec<FilePlan>,
    /// Status derived from the plans.
    pub status: DriftStatus,
}

impl SiblingDrift {
    /// The status a sibling with these plans has.
    pub fn classify(plans: &Vec<FilePlan>) -> (r: DriftStatus)
        ensures
            r == status_of(plan_views(plans@)),
    {
        let (missing, diverged) = plan_tallies(plans);
        if diverged > 0 {
            DriftStatus::Diverged
        } else if missing > 0 {
            DriftStatus::Missing
        } else {
            DriftStatus::Clean
        }
    }

    /// A scanned sibling: its root, name and plans, with the status they
    /// give.
    pub fn scanned(root: String, name: String, plans: Vec<FilePlan>) -> (r: Self)
        ensures
            r.root@ == root@,
            r.name@ == name@,
            r.plans@ == plans@,
            r.status == status_of(plan_views(plans@)),
    {
        let status = Self::classify(&plans);
        SiblingDrift { root, name, plans, status }
    }
}

/// The statuses of a list of siblings.
pub open spec fn statuses(v: Seq<SiblingDrift>) -> Seq<DriftStatus> {
    v.map_values(|s: SiblingDrift| s.status)
}

/// How many of `ss` equal `s`.
pub open spec fn count_status(ss: Seq<DriftStatus>, s: DriftStatus) -> nat
    decreases ss.len(),
{
    if ss.len() == 0 {
        0
    } else {
        (if ss[0] == s { 1nat } else { 0nat }) + count_status(ss.drop_first(), s)
    }
}

/// Whole-portfolio result.
#[derive(Debug, Default)]
#[non_exhaustive]
pub struct PortfolioDrift {
    /// Every scanned sibling, in discovery order.
    pub repos: Vec<SiblingDrift>,
}

impl PortfolioDrift {
    /// A portfolio of the given siblings.
    pub fn new(repos: Vec<SiblingDrift>) -> (r: Self)
        ensures
            r.repos@ == repos@,
    {
        PortfolioDrift { repos }
    }

    /// The siblings that drifted, in order.
    pub fn drifted(&self) -> (r: Vec<&SiblingDrift>)
        ensures
            r@ == self.repos@.filter(|s: SiblingDrift| s.status != DriftStatus::Clean).map_values(
                |s: SiblingDrift| &s,
            ),
    {
        let ghost pick = |s: SiblingDrift| s.status != DriftStatus::Clean;
        let mut out: Vec<&SiblingDrift> = Vec::new();
        let mut i: usize = 0;
        while i < self.repos.len()
            invariant
                i <= self.repos@.len(),
                pick == (|s: SiblingDrift| s.status != DriftStatus::Clean),
                out@ == self.repos@.take(i as int).filter(pick).map_values(|s: SiblingDrift| &s),
            decreases self.repos.len() - i,
        {
            let ghost before = out@;
            assert(self.repos@.take(i + 1).drop_last() =~= self.repos@.take(i as int));
            reveal(Seq::filter);
            if self.repos[i].status.is_drift() {
                out.push(&self.repos[i]);
            }
            assert(out@ =~= self.repos@.take(i + 1).filter(pick).map_values(|s: SiblingDrift| &s));
            i = i + 1;
        }
        assert(self.repos@.take(i as int) =~= self.repos@);
        out
    }

    /// The numbers of clean, missing and diverged siblings.
    pub fn counts(&self) -> (r: (u32, u32, u32))
        requires
            self.repos@.len() <= u32::MAX,
        ensures
            r.0 == count_status(statuses(self.repos@), DriftStatus::Clean),
            r.1 == count_status(statuses(self.repos@), DriftStatus::Missing),
            r.2 == count_status(statuses(self.repos@), DriftStatus::Diverged),
    {
        let ghost sv = statuses(self.repos@);
        let n: usize = self.repos.len();
        let mut i: usize = n;
        let mut clean: u32 = 0;
        let mut missing: u32 = 0;
        let mut diverged: u32 = 0;
        assert(sv.skip(i as int) =~= Seq::<DriftStatus>::empty());
        while i > 0
            invariant
                i <= n,
                n == self.repos@.len(),
                n <= u32::MAX,
                sv == statuses(self.repos@),
                clean == count_status(sv.skip(i as int), DriftStatus::Clean),
                missing == count_status(sv.skip(i as int), DriftStatus::Missing),
                diverged == count_status(sv.skip(i as int), DriftStatus::Diverged),
                clean + missing + diverged + i == n,
            decreases i,
        {
            i = i - 1;
            let ghost tail = sv.skip(i as int);
            assert(tail.drop_first() =~= sv.skip(i + 1));
            assert(tail[0] == self.repos@[i as int].status);
            match self.repos[i].status {
                DriftStatus::Clean => clean = clean + 1,
                DriftStatus::Missing => missing = missing + 1,
                DriftStatus::Diverged => diverged = diverged + 1,
            }
        }
        assert(sv.skip(0) =~= sv);
        (clean, missing, diverged)
    }
}

// ───────────────────────────── discovery ─────────────────────────────

/// The repository that is the canonical source; drift never reports on it.
pub const DOCTRINE_REPO: &'static str = "PlausiDen-AVP-Doctrine";

/// Marker file whose presence opts a sibling out of drift reports.
pub const DRIFT_SKIP_MARKER: &'static str = ".avp-drift-skip";

/// Whether a directory named `name` may be a sibling: not hidden and not
/// the doctrine repository.
pub open spec fn candidate(name: Seq<char>) -> bool {
    !(name.len() > 0 && name[0] == '.') && name != DOCTRINE_REPO@
}

/// Whether a directory named `name` may be a sibling (it must still be
/// a git repository without the skip marker).
pub fn sibling_candidate(name: &str) -> (r: bool)
    ensures
        r == candidate(name@),
{
    let c = crate::text::chars_of(name);
    if c.len() > 0 && c[0] == '.' {
        return false;
    }
    !str_eq(name, DOCTRINE_REPO)
}

/// `a` sorts no later than `b`.
pub open spec fn lex_le(a: Seq<char>, b: Seq<char>) -> bool {
    a == b || lex_lt(a, b)
}

/// The names in ascending order: the same names, each as often.
pub fn sorted_names(names: Vec<String>) -> (r: Vec<String>)
    ensures
        r@.len() == names@.len(),
        string_views(r@).to_multiset() == string_views(names@).to_multiset(),
        forall|x: int, y: int|
            0 <= x < y < r@.len() ==> lex_le(#[trigger] r@[x]@, #[trigger] r@[y]@),
        forall|k: int| 0 <= k < r@.len() ==> string_views(names@).contains(#[trigger] r@[k]@),
        forall|k: int| 0 <= k < names@.len() ==> string_views(r@).contains(#[trigger] names@[k]@),
{
    let mut out: Vec<String> = Vec::new();
    let mut i: usize = 0;
    proof {
        broadcast use vstd::seq_lib::group_to_multiset_ensures;
        assert(string_views(out@) =~= Seq::<Seq<char>>::empty());
        assert(string_views(names@.take(0)) =~= Seq::<Seq<char>>::empty());
    }
    while i < names.len()
        invariant
            i <= names@.len(),
            out@.len() == i,
            forall|x: int, y: int|
                0 <= x < y < out@.len() ==> lex_le(#[trigger] out@[x]@, #[trigger] out@[y]@),
            forall|x: int|
                0 <= x < out@.len() ==> exists|k: int| 0 <= k < i && (#[trigger] out@[x])@ == names@[k]@,
            forall|k: int| 0 <= k < i ==> string_views(out@).contains(#[trigger] names@[k]@),
            string_views(out@).to_multiset() == string_views(names@.take(i as int)).to_multiset(),
        decreases names.len() - i,
    {
        let name = names[i].clone();
        let mut p: usize = 0;
        while p < out.len() && !str_lt(name.as_str(), out[p].as_str())
            invariant
                p <= out@.len(),
                i < names@.len(),
                name@ == names@[i as int]@,
                forall|q: int| 0 <= q < p ==> !lex_lt(name@, #[trigger] out@[q]@),
            decreases out.len() - p,
        {
            p = p + 1;
        }
        let ghost before = out@;
        proof {
            assert forall|q: int| 0 <= q < p implies lex_le(#[trigger] before[q]@, name@) by {
                if before[q]@ != name@ {
                    lemma_lex_total(before[q]@, name@);
                }
            }
            assert forall|q: int| p <= q < before.len() implies lex_lt(name@, #[trigger] before[q]@) by {
                if q > p {
                    if before[p as int]@ != before[q]@ {
                        lemma_lex_transitive(name@, before[p as int]@, before[q]@);
                    }
                }
            }
        }
        out.insert(p, name);
        proof {
            assert(out@ == before.insert(p as int, name));
            assert forall|x: int, y: int| 0 <= x < y < out@.len() implies lex_le(
                #[trigger] out@[x]@,
                #[trigger] out@[y]@,
            ) by {
                if x < p && y < p {
                    assert(out@[x] == before[x] && out@[y] == before[y]);
                } else if x < p && y == p {
                    assert(out@[x] == before[x]);
                } else if x < p && y > p {
                    assert(out@[x] == before[x] && out@[y] == before[y - 1]);
                    if before[x]@ != name@ {
                        lemma_lex_transitive(before[x]@, name@, before[y - 1]@);
                    }
                } else if x == p {
                    assert(out@[y] == before[y - 1]);
                } else {
                    assert(out@[x] == before[x - 1] && out@[y] == before[y - 1]);
                }
            }
            assert forall|x: int| 0 <= x < out@.len() implies exists|k: int|
                0 <= k < i + 1 && (#[trigger] out@[x])@ == names@[k]@ by {
                if x < p {
                    assert(out@[x] == before[x]);
                } else if x > p {
                    assert(out@[x] == before[x - 1]);
                } else {
                    assert(out@[x]@ == names@[i as int]@);
                }
            }
            assert forall|k: int| 0 <= k < i + 1 implies string_views(out@).contains(
                #[trigger] names@[k]@,
            ) by {
                if k < i {
                    let w = choose|w: int| 0 <= w < before.len() && string_views(before)[w] == names@[k]@;
                    if w < p {
                        assert(string_views(out@)[w] == out@[w]@);
                        assert(out@[w] == before[w]);
                    } else {
                        assert(string_views(out@)[w + 1] == out@[w + 1]@);
                        assert(out@[w + 1] == before[w]);
                    }
                } else {
                    assert(string_views(out@)[p as int] == out@[p as int]@);
                }
            }
            broadcast use vstd::seq_lib::group_to_multiset_ensures;
            let sv = string_views(before);
            let tv = string_views(out@);
            assert(tv =~= sv.insert(p as int, name@));
            assert(tv.remove(p as int) =~= sv);
            assert(tv[p as int] == name@);
            assert(tv.to_multiset().count(name@) > 0);
            assert(tv.to_multiset() =~= sv.to_multiset().insert(name@));
            assert(string_views(names@.take(i + 1)) =~= string_views(names@.take(i as int)).push(
                names@[i as int]@,
            ));
        }
        i = i + 1;
    }
    proof {
        assert forall|k: int| 0 <= k < out@.len() implies string_views(names@).contains(
            #[trigger] out@[k]@,
        ) by {
            let w = choose|w: int| 0 <= w < i && out@[k]@ == names@[w]@;
            assert(string_views(names@)[w] == names@[w]@);
        }
        assert(names@.take(i as int) =~= names@);
    }
    out
}

// ───────────────────────────── reports ─────────────────────────────

/// One row of the markdown table.
pub open spec fn markdown_row(r: SiblingDrift) -> Seq<char> {
    "| `"@ + r.name@ + "` | "@ + status_label(r.status) + " | "@ + decimal(
        count_missing(plan_views(r.plans@)),
    ) + " | "@ + decimal(count_diverged(plan_views(r.plans@))) + " |\n"@
}

/// The rows of the markdown table, one per sibling.
pub open spec fn markdown_rows(rs: Seq<SiblingDrift>) -> Seq<char>
    decreases rs.len(),
{
    if rs.len() == 0 {
        Seq::empty()
    } else {
        markdown_row(rs[0]) + markdown_rows(rs.drop_first())
    }
}

/// The markdown report of a portfolio.
pub open spec fn markdown_text(rs: Seq<SiblingDrift>) -> Seq<char> {
    "# AVP portfolio drift report\n"@ + "\n- **Clean**: "@ + decimal(
        count_status(statuses(rs), DriftStatus::Clean),
    ) + "\n- **Missing**: "@ + decimal(count_status(statuses(rs), DriftStatus::Missing))
        + "\n- **Diverged**: "@ + decimal(count_status(statuses(rs), DriftStatus::Diverged))
        + "\n- **Total**: "@ + decimal(rs.len()) + "\n"@ + "\n## Per-repo\n"@
        + "\n| repo | status | missing | diverged |\n"@ + "|---|---|---|---|\n"@ + markdown_rows(rs)
}

/// Render a markdown report of the portfolio drift state.
pub fn render_markdown(d: &PortfolioDrift) -> (r: String)
    requires
        d.repos@.len() <= u32::MAX,
    ensures
        r@ == markdown_text(d.repos@),
{
    let (clean, missing, diverged) = d.counts();
    let mut s = String::new();
    push_str(&mut s, "# AVP portfolio drift report\n");
    push_str(&mut s, "\n- **Clean**: ");
    push_decimal(&mut s, clean as u64);
    push_str(&mut s, "\n- **Missing**: ");
    push_decimal(&mut s, missing as u64);
    push_str(&mut s, "\n- **Diverged**: ");
    push_decimal(&mut s, diverged as u64);
    push_str(&mut s, "\n- **Total**: ");
    push_decimal(&mut s, d.repos.len() as u64);
    push_str(&mut s, "\n");
    push_str(&mut s, "\n## Per-repo\n");
    push_str(&mut s, "\n| repo | status | missing | diverged |\n");
    push_str(&mut s, "|---|---|---|---|\n");
    let ghost head = s@;
    let ghost rs = d.repos@;
    let mut i: usize = 0;
    assert(rs.skip(0) =~= rs);
    while i < d.repos.len()
        invariant
            i <= rs.len(),
            rs == d.repos@,
            s@ + markdown_rows(rs.skip(i as int)) == head + markdown_rows(rs),
        decreases d.repos.len() - i,
    {
        let ghost before = s@;
        let ghost rest = rs.skip(i as int);
        assert(rest.drop_first() =~= rs.skip(i + 1));
        let r = &d.repos[i];
        let (m, dv) = plan_tallies(&r.plans);
        push_str(&mut s, "| `");
        push_str(&mut s, r.name.as_str());
        push_str(&mut s, "` | ");
        push_str(&mut s, r.status.label());
        push_str(&mut s, " | ");
        push_decimal(&mut s, m as u64);
        push_str(&mut s, " | ");
        push_decimal(&mut s, dv as u64);
        push_str(&mut s, " |\n");
        assert(s@ + markdown_rows(rs.skip(i + 1)) =~= before + markdown_rows(rest));
        i = i + 1;
    }
    assert(rs.skip(i as int) =~= Seq::<SiblingDrift>::empty());
    assert(s@ + Seq::<char>::empty() =~= s@);
    assert(s@ =~= markdown_text(d.repos@));
    s
}

/// The cells of the terminal table's row for a sibling: name, status,
/// missing count, diverged count.
pub open spec fn table_cells(r: SiblingDrift) -> (Seq<char>, Seq<char>, Seq<char>, Seq<char>) {
    (
        r.name@,
        status_label(r.status),
        decimal(count_missing(plan_views(r.plans@))),
        decimal(count_diverged(plan_views(r.plans@))),
    )
}

/// The rows of the terminal table, one per sibling.
pub fn table_rows(d: &PortfolioDrift) -> (r: Vec<(String, String, String, String)>)
    ensures
        r@.len() == d.repos@.len(),
        forall|k: int|
            0 <= k < r@.len() ==> ((#[trigger] r@[k]).0@, r@[k].1@, r@[k].2@, r@[k].3@) == table_cells(
                d.repos@[k],
            ),
{
    let mut rows: Vec<(String, String, String, String)> = Vec::new();
    let mut i: usize = 0;
    while i < d.repos.len()
        invariant
            i <= d.repos@.len(),
            rows@.len() == i,
            forall|k: int|
                0 <= k < i ==> ((#[trigger] rows@[k]).0@, rows@[k].1@, rows@[k].2@, rows@[k].3@)
                    == table_cells(d.repos@[k]),
        decreases d.repos.len() - i,
    {
        let r = &d.repos[i];
        let (m, dv) = plan_tallies(&r.plans);
        let mut ms = String::new();
        push_decimal(&mut ms, m as u64);
        let mut ds = String::new();
        push_decimal(&mut ds, dv as u64);
        rows.push((r.name.clone(), r.status.label().to_string(), ms, ds));
        i = i + 1;
    }
    rows
}

/// One file line of an issue body.
pub open spec fn issue_line(p: PlanView) -> Seq<char> {
    match p {
        PlanView::Create { rel, .. } => "- \u{274c} **missing** `"@ + rel + "`\n"@,
        PlanView::Diverged { rel, .. } => "- \u{26a0}\u{fe0f}  **diverged** `"@ + rel + "`\n"@,
        PlanView::Identical { rel } => "- \u{2705}  identical `"@ + rel + "`\n"@,
    }
}

/// The file lines of an issue body, one per plan.
pub open spec fn issue_lines(ps: Seq<PlanView>) -> Seq<char>
    decreases ps.len(),
{
    if ps.len() == 0 {
        Seq::empty()
    } else {
        issue_line(ps[0]) + issue_lines(ps.drop_first())
    }
}

/// The body of the drift issue filed for a sibling.
pub open spec fn issue_body_text(r: SiblingDrift) -> Seq<char> {
    "Filed automatically by `avp drift --open-issues`.\n\n"@ + "Status: **"@ + status_label(r.status)
        + "**\n"@ + "\n## Files\n\n"@ + issue_lines(plan_views(r.plans@))
        + "\nFix: `avp install` (use `--force` if local changes should be discarded).\n"@
}

/// The body of the drift issue filed for a sibling.
pub fn render_issue_body(repo: &SiblingDrift) -> (r: String)
    ensures
        r@ == issue_body_text(*repo),
{
    let mut s = String::new();
    push_str(&mut s, "Filed automatically by `avp drift --open-issues`.\n\n");
    push_str(&mut s, "Status: **");
    push_str(&mut s, repo.status.label());
    push_str(&mut s, "**\n");
    push_str(&mut s, "\n## Files\n\n");
    let ghost head = s@;
    let ghost pv = plan_views(repo.plans@);
    let mut i: usize = 0;
    assert(pv.skip(0) =~= pv);
    while i < repo.plans.len()
        invariant
            i <= pv.len(),
            pv == plan_views(repo.plans@),
            s@ + issue_lines(pv.skip(i as int)) == head + issue_lines(pv),
        decreases repo.plans.len() - i,
    {
        let ghost before = s@;
        let ghost rest = pv.skip(i as int);
        assert(rest.drop_first() =~= pv.skip(i + 1));
        assert(rest[0] == repo.plans@[i as int]@);
        match &repo.plans[i] {
            FilePlan::Create { rel, .. } => {
                push_str(&mut s, "- \u{274c} **missing** `");
                push_str(&mut s, rel.as_str());
                push_str(&mut s, "`\n");
            },
            FilePlan::Diverged { rel, .. } => {
                push_str(&mut s, "- \u{26a0}\u{fe0f}  **diverged** `");
                push_str(&mut s, rel.as_str());
                push_str(&mut s, "`\n");
            },
            FilePlan::Identical { rel } => {
                push_str(&mut s, "- \u{2705}  identical `");
                push_str(&mut s, rel.as_str());
                push_str(&mut s, "`\n");
            },
        }
        assert(s@ + issue_lines(pv.skip(i + 1)) =~= before + issue_lines(rest));
        i = i + 1;
    }
    assert(pv.skip(i as int) =~= Seq::<PlanView>::empty());
    assert(s@ + Seq::<char>::empty() =~= s@);
    push_str(&mut s, "\nFix: `avp install` (use `--force` if local changes should be discarded).\n");
    assert(s@ =~= issue_body_text(*repo));
    s
}

/// The title of the drift issue filed for a sibling.
pub fn issue_title(repo: &SiblingDrift) -> (r: String)
    ensures
        r@ == "[avp-drift] "@ + repo.name@ + " diverges from canonical"@,
{
    let mut s = String::new();
    push_str(&mut s, "[avp-drift] ");
    push_str(&mut s, repo.name.as_str());
    push_str(&mut s, " diverges from canonical");
    s
}

/// The summary printed under the terminal table.
pub fn summary_line(d: &PortfolioDrift) -> (r: String)
    requires
        d.repos@.len() <= u32::MAX,
    ensures
        r@ == "\nportfolio: "@ + decimal(count_status(statuses(d.repos@), DriftStatus::Clean))
            + " clean, "@ + decimal(count_status(statuses(d.repos@), DriftStatus::Missing))
            + " missing, "@ + decimal(count_status(statuses(d.repos@), DriftStatus::Diverged))
            + " diverged ("@ + decimal(d.repos@.len()) + " total)\n"@,
{
    let (clean, missing, diverged) = d.counts();
    let mut s = String::new();
    push_str(&mut s, "\nportfolio: ");
    push_decimal(&mut s, clean as u64);
    push_str(&mut s, " clean, ");
    push_decimal(&mut s, missing as u64);
    push_str(&mut s, " missing, ");
    push_decimal(&mut s, diverged as u64);
    push_str(&mut s, " diverged (");
    push_decimal(&mut s, d.repos.len() as u64);
    push_str(&mut s, " total)\n");
    s
}

/// The line reporting how many issues were filed.
pub fn filed_line(filed: u32) -> (r: String)
    ensures
        r@ == "filed "@ + decimal(filed as nat) + " drift issue(s)\n"@,
{
    let mut s = String::new();
    push_str(&mut s, "filed ");
    push_decimal(&mut s, filed as u64);
    push_str(&mut s, " drift issue(s)\n");
    s
}

// ───────────────────────────── laws ─────────────────────────────

/// Every sibling is counted exactly once: the clean, missing and
/// diverged counts add up to the number of siblings.
pub proof fn lemma_counts_partition(ss: Seq<DriftStatus>)
    ensures
        count_status(ss, DriftStatus::Clean) + count_status(ss, DriftStatus::Missing)
            + count_status(ss, DriftStatus::Diverged) == ss.len(),
    decreases ss.len(),
{
    if ss.len() > 0 {
        lemma_counts_partition(ss.drop_first());
    }
}

/// A sibling is clean exactly when every canonical file is present and
/// identical; any diverged file makes it diverged, whatever else is
/// missing.
pub proof fn lemma_status_classes(ps: Seq<PlanView>)
    ensures
        status_of(ps) == DriftStatus::Clean <==> forall|i: int| 0 <= i < ps.len() ==> (#[trigger] ps[i]) is Identical,
        status_of(ps) == DriftStatus::Diverged <==> exists|i: int| 0 <= i < ps.len() && (#[trigger] ps[i]) is Diverged,
    decreases ps.len(),
{
    if ps.len() > 0 {
        let rest = ps.drop_first();
        lemma_status_classes(rest);
        assert forall|i: int| 0 < i < ps.len() implies ps[i] == rest[i - 1] by {}
        if count_diverged(ps) > 0 {
            if !(ps[0] is Diverged) {
                let j = choose|j: int| 0 <= j < rest.len() && (#[trigger] rest[j]) is Diverged;
                assert(ps[j + 1] is Diverged);
            }
        } else {
            if exists|i: int| 0 <= i < ps.len() && (#[trigger] ps[i]) is Diverged {
                let j = choose|j: int| 0 <= j < ps.len() && (#[trigger] ps[j]) is Diverged;
                if j > 0 {
                    assert(rest[j - 1] is Diverged);
                }
            }
        }
        if forall|i: int| 0 <= i < ps.len() ==> (#[trigger] ps[i]) is Identical {
            assert forall|i: int| 0 <= i < rest.len() implies (#[trigger] rest[i]) is Identical by {
                assert(ps[i + 1] is Identical);
            }
        }
        if status_of(ps) == DriftStatus::Clean {
            assert forall|i: int| 0 <= i < ps.len() implies (#[trigger] ps[i]) is Identical by {
                if i > 0 {
                    assert(rest[i - 1] is Identical);
                }
            }
        }
    }
}

} // verus!
