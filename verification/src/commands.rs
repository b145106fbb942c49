//! What the `avp` subcommands decide and print: the output format, the
//! ratchet downgrade of covered findings, the exit decisions, the
//! ratchet listing and preflight lines, the table of gates, `explain` and
//! the text of unimplemented subcommands.

use vstd::prelude::*;

use crate::finding::{Finding, Severity};
use crate::gate::{GateId, UnknownGate};
use crate::newtype::CrateName;
use crate::ratchet::{
    expired_on, expiring, expiring_within, expired_ones, ref_views, entry_views, EntryView,
    RatchetEntry, RatchetFile,
};
use crate::text::{
    chars_of, debug_quote, debug_quoted, decimal, push_char, push_decimal, push_signed_decimal,
    push_str, signed_decimal, string_of, string_views,
};

verus! {

// ───────────────────────────── output format ─────────────────────────────

/// Output format selector.
#[derive(Debug, Clone, Copy, PartialEq, Eq, Structural)]
pub enum OutputFormat {
    /// GitHub-Actions annotations in CI, human output elsewhere.
    Auto,
    /// Colored, TTY-friendly summary.
    Human,
    /// `::error file=…,line=…::msg` annotations.
    GithubActions,
    /// JSON lines, one finding per line.
    Json,
}

/// The format a check run reports in: `Auto` becomes GitHub-Actions in
/// CI and human output elsewhere; an explicit choice stays.
pub fn resolve_format(format: OutputFormat, in_ci: bool) -> (r: OutputFormat)
    ensures
        r == (match format {
            OutputFormat::Auto => if in_ci {
                OutputFormat::GithubActions
            } else {
                OutputFormat::Human
            },
            other => other,
        }),
{
    match format {
        OutputFormat::Auto => if in_ci {
            OutputFormat::GithubActions
        } else {
            OutputFormat::Human
        },
        other => other,
    }
}

/// Whether the human reporter paints: unless `--no-color` was given or
/// `NO_COLOR` is set.
pub fn use_color(no_color_flag: bool, no_color_env: bool) -> (r: bool)
    ensures
        r == (!no_color_flag && !no_color_env),
{
    !no_color_flag && !no_color_env
}

// ───────────────────────────── ratchet filter ─────────────────────────────

/// The crate of a finding as the ratchet sees it.
pub open spec fn scope_view(c: Option<CrateName>) -> Option<Seq<char>> {
    match c {
        Some(n) => Some(n@),
        None => None,
    }
}

/// A finding is downgraded when it fails CI and an active override
/// covers its gate, crate and file.
pub open spec fn downgraded(f: Finding, ratchet: RatchetFile, scope: Option<CrateName>, now: int) -> bool {
    f.severity == Severity::Error && ratchet.covering(
        f.gate,
        scope_view(scope),
        Some(f.location.file@),
        now,
    )
}

/// `after` is `before` passed through the ratchet: a downgraded finding
/// becomes a `Notice` whose message is prefixed `[ratcheted] `; the
/// rest is unchanged.
pub open spec fn ratcheted(before: Finding, after: Finding, ratchet: RatchetFile, scope: Option<CrateName>, now: int) -> bool {
    &&& after.gate == before.gate
    &&& after.location == before.location
    &&& after.suggested_ratchet == before.suggested_ratchet
    &&& if downgraded(before, ratchet, scope, now) {
        after.severity == Severity::Notice && after.message@ == "[ratcheted] "@ + before.message@
    } else {
        after.severity == before.severity && after.message@ == before.message@
    }
}

/// One finding through the ratchet.
pub fn ratchet_one(f: Finding, ratchet: &RatchetFile, scope: Option<&CrateName>, now: i32) -> (r: Finding)
    requires
        ratchet.regexes_ok(),
    ensures
        ratcheted(f, r, *ratchet, match scope {
            Some(c) => Some(*c),
            None => None,
        }, now as int),
{
    if !f.severity.is_failing() {
        return f;
    }
    let covered = ratchet.covers(f.gate, scope, Some(f.location.file.as_str()), now);
    if covered {
        let mut message = String::new();
        push_str(&mut message, "[ratcheted] ");
        push_str(&mut message, f.message.as_str());
        Finding {
            gate: f.gate,
            severity: Severity::Notice,
            location: f.location,
            message,
            suggested_ratchet: f.suggested_ratchet,
        }
    } else {
        f
    }
}

/// Every finding through the ratchet: `scopes[i]` is the crate the i-th
/// finding's file belongs to, if one was found.
pub fn apply_ratchet(
    findings: Vec<Finding>,
    ratchet: &RatchetFile,
    scopes: &Vec<Option<CrateName>>,
    now: i32,
) -> (r: Vec<Finding>)
    requires
        ratchet.regexes_ok(),
        findings@.len() == scopes@.len(),
    ensures
        r@.len() == findings@.len(),
        forall|i: int|
            0 <= i < findings@.len() ==> ratcheted(
                findings@[i],
                #[trigger] r@[i],
                *ratchet,
                scopes@[i],
                now as int,
            ),
{
    let ghost before = findings@;
    let mut out: Vec<Finding> = Vec::new();
    let n: usize = scopes.len();
    let mut i: usize = 0;
    for f in it: findings
        invariant
            it.seq() == before,
            n == scopes@.len(),
            i == it.index(),
            before.len() == scopes@.len(),
            ratchet.regexes_ok(),
            out@.len() == i,
            forall|k: int|
                0 <= k < i ==> ratcheted(before[k], #[trigger] out@[k], *ratchet, scopes@[k], now as int),
    {
        let scope: Option<&CrateName> = match &scopes[i] {
            Some(c) => Some(c),
            None => None,
        };
        let g = ratchet_one(f, ratchet, scope, now);
        out.push(g);
        i = i + 1;
    }
    out
}

/// Whether any finding is an error: a check run then exits with failure.
pub fn any_error(findings: &Vec<Finding>) -> (r: bool)
    ensures
        r == exists|i: int| 0 <= i < findings@.len() && (#[trigger] findings@[i]).severity == Severity::Error,
{
    let mut i: usize = 0;
    while i < findings.len()
        invariant
            i <= findings@.len(),
            forall|k: int| 0 <= k < i ==> (#[trigger] findings@[k]).severity != Severity::Error,
        decreases findings.len() - i,
    {
        if findings[i].severity.is_failing() {
            return true;
        }
        i = i + 1;
    }
    false
}

// ───────────────────────────── ratchet subcommands ─────────────────────────────

/// The line `avp ratchet validate` prints for a valid file.
pub fn validated_line(path: &str, count: usize) -> (r: String)
    ensures
        r@ == path@ + ": "@ + decimal(count as nat) + " override(s) \u{2014} valid"@,
{
    let mut s = String::new();
    push_str(&mut s, path);
    push_str(&mut s, ": ");
    push_decimal(&mut s, count as u64);
    push_str(&mut s, " override(s) \u{2014} valid");
    s
}

/// The preflight line for an expired entry, given the debug rendering
/// of its reason.
pub open spec fn expired_text(e: EntryView, quoted_reason: Seq<char>) -> Seq<char> {
    "::error::expired ratchet: gate="@ + e.gate.kebab() + " signed_by="@ + e.signed_by + " reason="@
        + quoted_reason
}

/// The preflight line for an entry expiring within the window.
pub open spec fn expiring_text(e: EntryView, now: int) -> Seq<char> {
    "::warning::ratchet expires in "@ + signed_decimal(e.expires_after - now) + "d: gate="@
        + e.gate.kebab() + " signed_by="@ + e.signed_by
}

/// The preflight line for an active entry not expiring within the window.
pub open spec fn active_text(e: EntryView, now: int) -> Seq<char> {
    "::notice::ratchet active ("@ + signed_decimal(e.expires_after - now) + "d left): gate="@
        + e.gate.kebab() + " signed_by="@ + e.signed_by
}

/// The entries active on day `now` that are not expiring within `window`.
pub open spec fn quiet_active(es: Seq<EntryView>, now: int, window: int) -> Seq<EntryView>
    decreases es.len(),
{
    if es.len() == 0 {
        Seq::empty()
    } else if !expired_on(es.last(), now) && !expiring_within(es.last(), now, window) {
        quiet_active(es.drop_last(), now, window).push(es.last())
    } else {
        quiet_active(es.drop_last(), now, window)
    }
}

/// The line for an expired entry, given the debug rendering of its
/// reason.
pub fn expired_line(e: &RatchetEntry, quoted_reason: &str) -> (r: String)
    ensures
        r@ == expired_text(e@, quoted_reason@),
{
    let mut s = String::new();
    push_str(&mut s, "::error::expired ratchet: gate=");
    push_str(&mut s, e.gate_id().as_kebab());
    push_str(&mut s, " signed_by=");
    push_str(&mut s, e.signed_by_text());
    push_str(&mut s, " reason=");
    push_str(&mut s, quoted_reason);
    s
}

/// The line for an entry expiring within the window.
pub fn expiring_line(e: &RatchetEntry, now: i32) -> (r: String)
    ensures
        r@ == expiring_text(e@, now as int),
{
    let mut s = String::new();
    push_str(&mut s, "::warning::ratchet expires in ");
    push_signed_decimal(&mut s, e.days_until_expiry(now));
    push_str(&mut s, "d: gate=");
    push_str(&mut s, e.gate_id().as_kebab());
    push_str(&mut s, " signed_by=");
    push_str(&mut s, e.signed_by_text());
    s
}

/// The line for an active entry not expiring within the window.
pub fn active_line(e: &RatchetEntry, now: i32) -> (r: String)
    ensures
        r@ == active_text(e@, now as int),
{
    let mut s = String::new();
    push_str(&mut s, "::notice::ratchet active (");
    push_signed_decimal(&mut s, e.days_until_expiry(now));
    push_str(&mut s, "d left): gate=");
    push_str(&mut s, e.gate_id().as_kebab());
    push_str(&mut s, " signed_by=");
    push_str(&mut s, e.signed_by_text());
    s
}

/// What `avp ratchet preflight` reports.
pub struct Preflight {
    /// One `::error::` line per expired entry (standard error).
    pub errors: Vec<String>,
    /// One `::warning::` line per entry expiring within the window
    /// (standard error).
    pub warnings: Vec<String>,
    /// One `::notice::` line per other active entry (standard output).
    pub notices: Vec<String>,
    /// Whether the run fails: some entry expired.
    pub failed: bool,
}

/// The preflight report of `f` on day `now` with a warning window of
/// `window_days` days.
pub fn preflight(f: &RatchetFile, now: i32, window_days: u16) -> (r: Preflight)
    ensures
        r.errors@.len() == expired_ones(entry_views(f.entries@), now as int).len(),
        forall|k: int|
            0 <= k < r.errors@.len() ==> (#[trigger] r.errors@[k])@ == expired_text(
                expired_ones(entry_views(f.entries@), now as int)[k],
                debug_quoted(expired_ones(entry_views(f.entries@), now as int)[k].reason),
            ),
        string_views(r.warnings@) == expiring(entry_views(f.entries@), now as int, window_days as int).map_values(
            |e: EntryView| expiring_text(e, now as int),
        ),
        string_views(r.notices@) == quiet_active(entry_views(f.entries@), now as int, window_days as int).map_values(
            |e: EntryView| active_text(e, now as int),
        ),
        r.failed == (expired_ones(entry_views(f.entries@), now as int).len() > 0),
{
    let expired = f.expired(now);
    let mut errors: Vec<String> = Vec::new();
    let mut i: usize = 0;
    while i < expired.len()
        invariant
            i <= expired@.len(),
            ref_views(expired@) == expired_ones(entry_views(f.entries@), now as int),
            errors@.len() == i,
            forall|k: int|
                0 <= k < i ==> (#[trigger] errors@[k])@ == expired_text(
                    ref_views(expired@)[k],
                    debug_quoted(ref_views(expired@)[k].reason),
                ),
        decreases expired.len() - i,
    {
        let e = expired[i];
        let q = debug_quote(e.reason_text());
        let line = expired_line(e, q.as_str());
        errors.push(line);
        i = i + 1;
    }
    let soon = f.expiring_soon(now, window_days);
    let ghost sv = ref_views(soon@);
    let mut warnings: Vec<String> = Vec::new();
    let mut j: usize = 0;
    while j < soon.len()
        invariant
            j <= soon@.len(),
            sv == ref_views(soon@),
            string_views(warnings@) == sv.take(j as int).map_values(|e: EntryView| expiring_text(e, now as int)),
        decreases soon.len() - j,
    {
        let ghost before = string_views(warnings@);
        let line = expiring_line(soon[j], now);
        let ghost lv = line@;
        assert(sv[j as int] == soon@[j as int]@);
        warnings.push(line);
        assert(string_views(warnings@) =~= before.push(lv));
        assert(sv.take(j + 1) =~= sv.take(j as int).push(sv[j as int]));
        assert(string_views(warnings@) =~= sv.take(j + 1).map_values(|e: EntryView| expiring_text(e, now as int)));
        j = j + 1;
    }
    assert(sv.take(j as int) =~= sv);
    let ghost all = entry_views(f.entries@);
    let mut notices: Vec<String> = Vec::new();
    let mut k: usize = 0;
    while k < f.entries.len()
        invariant
            k <= f.entries@.len(),
            all == entry_views(f.entries@),
            string_views(notices@) == quiet_active(all.take(k as int), now as int, window_days as int).map_values(
                |e: EntryView| active_text(e, now as int),
            ),
        decreases f.entries.len() - k,
    {
        assert(all.take(k + 1).drop_last() =~= all.take(k as int));
        assert(all.take(k + 1).last() == f.entries@[k as int]@);
        let ghost before = string_views(notices@);
        let e = &f.entries[k];
        let days = e.days_until_expiry(now);
        if !e.is_expired(now) && !(days >= 0 && days <= window_days as i64) {
            let line = active_line(e, now);
            notices.push(line);
            assert(string_views(notices@) =~= before.push(active_text(f.entries@[k as int]@, now as int)));
        }
        k = k + 1;
    }
    assert(all.take(k as int) =~= all);
    let failed = expired.len() > 0;
    Preflight { errors, warnings, notices, failed }
}

/// One row of `avp ratchet list`.
pub struct RatchetRow {
    /// Gate, kebab-case.
    pub gate: String,
    /// Crate scope, `-` when unscoped.
    pub crate_scope: String,
    /// File regex, `-` when unscoped.
    pub file: String,
    /// Days left, with ` (expired)` once expired.
    pub days_left: String,
    /// Signer as written.
    pub signed_by: String,
    /// Reason, elided to 60 characters.
    pub reason: String,
}

/// `s` shortened to `n` characters: kept when it has at most `n`,
/// otherwise its first `n - 1` characters (none when `n` is 0) and `…`.
pub open spec fn elided(s: Seq<char>, n: nat) -> Seq<char> {
    if s.len() <= n {
        s
    } else {
        s.take(if n == 0 { 0 } else { n - 1 }).push('\u{2026}')
    }
}

/// `s` shortened to at most `n` characters, ending in `…` when cut.
pub fn elide(s: &str, n: usize) -> (r: String)
    ensures
        r@ == elided(s@, n as nat),
{
    let c = chars_of(s);
    if c.len() <= n {
        return s.to_string();
    }
    let keep: usize = if n == 0 { 0 } else { n - 1 };
    let mut out = String::new();
    let mut i: usize = 0;
    while i < keep
        invariant
            i <= keep,
            keep < c@.len(),
            c@ == s@,
            out@ == s@.take(i as int),
        decreases keep - i,
    {
        push_char(&mut out, c[i]);
        assert(s@.take(i + 1) =~= s@.take(i as int).push(s@[i as int]));
        i = i + 1;
    }
    push_char(&mut out, '\u{2026}');
    out
}

/// The text of an optional scope in the listing: `-` when absent.
pub open spec fn or_dash(o: Option<Seq<char>>) -> Seq<char> {
    match o {
        Some(s) => s,
        None => "-"@,
    }
}

/// The days-left cell of an entry on day `now`.
pub open spec fn days_cell(e: EntryView, now: int) -> Seq<char> {
    if expired_on(e, now) {
        signed_decimal(e.expires_after - now) + " (expired)"@
    } else {
        signed_decimal(e.expires_after - now)
    }
}

/// `row` lists entry `e` on day `now`.
pub open spec fn lists(row: RatchetRow, e: EntryView, now: int) -> bool {
    &&& row.gate@ == e.gate.kebab()
    &&& row.crate_scope@ == or_dash(e.crate_scope)
    &&& row.file@ == or_dash(e.file)
    &&& row.days_left@ == days_cell(e, now)
    &&& row.signed_by@ == e.signed_by
    &&& row.reason@ == elided(e.reason, 60)
}

/// The entries `avp ratchet list` shows on day `now`: all of them with
/// `include_expired`, else the active ones.
pub open spec fn listed(es: Seq<EntryView>, now: int, include_expired: bool) -> Seq<EntryView>
    decreases es.len(),
{
    if es.len() == 0 {
        Seq::empty()
    } else if include_expired || !expired_on(es.last(), now) {
        listed(es.drop_last(), now, include_expired).push(es.last())
    } else {
        listed(es.drop_last(), now, include_expired)
    }
}

/// The row listing one entry.
pub fn ratchet_row(e: &RatchetEntry, now: i32) -> (r: RatchetRow)
    ensures
        lists(r, e@, now as int),
{
    let gate = e.gate_id().as_kebab().to_string();
    let crate_scope = match e.crate_scope_text() {
        Some(c) => c.to_string(),
        None => "-".to_string(),
    };
    let file = match e.file_text() {
        Some(f) => f.to_string(),
        None => "-".to_string(),
    };
    let mut days_left = String::new();
    push_signed_decimal(&mut days_left, e.days_until_expiry(now));
    if e.is_expired(now) {
        push_str(&mut days_left, " (expired)");
    }
    let signed_by = e.signed_by_text().to_string();
    let reason = elide(e.reason_text(), 60);
    RatchetRow { gate, crate_scope, file, days_left, signed_by, reason }
}

/// The rows of `avp ratchet list` on day `now`.
pub fn ratchet_rows(f: &RatchetFile, now: i32, include_expired: bool) -> (r: Vec<RatchetRow>)
    ensures
        r@.len() == listed(entry_views(f.entries@), now as int, include_expired).len(),
        forall|k: int|
            0 <= k < r@.len() ==> lists(
                #[trigger] r@[k],
                listed(entry_views(f.entries@), now as int, include_expired)[k],
                now as int,
            ),
{
    let ghost all = entry_views(f.entries@);
    let mut rows: Vec<RatchetRow> = Vec::new();
    let mut i: usize = 0;
    while i < f.entries.len()
        invariant
            i <= f.entries@.len(),
            all == entry_views(f.entries@),
            rows@.len() == listed(all.take(i as int), now as int, include_expired).len(),
            forall|k: int|
                0 <= k < rows@.len() ==> lists(
                    #[trigger] rows@[k],
                    listed(all.take(i as int), now as int, include_expired)[k],
                    now as int,
                ),
        decreases f.entries.len() - i,
    {
        assert(all.take(i + 1).drop_last() =~= all.take(i as int));
        assert(all.take(i + 1).last() == f.entries@[i as int]@);
        let e = &f.entries[i];
        if include_expired || !e.is_expired(now) {
            let row = ratchet_row(e, now);
            rows.push(row);
        }
        i = i + 1;
    }
    assert(all.take(i as int) =~= all);
    rows
}

// ───────────────────────────── gates ─────────────────────────────

/// The ratchetable cell of the table of gates.
pub open spec fn ratchetable_cell(g: GateId) -> Seq<char> {
    if g != GateId::DebugRemove {
        "yes"@
    } else {
        "NO"@
    }
}

/// The rows of `avp gate list`: kebab name, whether ratchetable
/// (`yes`/`NO`) and description, one per gate in the order of `ALL`.
pub fn gate_rows() -> (r: Vec<(&'static str, &'static str, &'static str)>)
    ensures
        r@.len() == GateId::all_seq().len(),
        forall|k: int|
            0 <= k < r@.len() ==> {
                &&& (#[trigger] r@[k]).0@ == GateId::all_seq()[k].kebab()
                &&& r@[k].1@ == ratchetable_cell(GateId::all_seq()[k])
                &&& r@[k].2@ == GateId::all_seq()[k].description_text()
            },
{
    let mut rows: Vec<(&'static str, &'static str, &'static str)> = Vec::new();
    let mut i: usize = 0;
    while i < 6
        invariant
            i <= 6,
            GateId::all_seq().len() == 6,
            rows@.len() == i,
            forall|k: int|
                0 <= k < i ==> {
                    &&& (#[trigger] rows@[k]).0@ == GateId::all_seq()[k].kebab()
                    &&& rows@[k].1@ == ratchetable_cell(GateId::all_seq()[k])
                    &&& rows@[k].2@ == GateId::all_seq()[k].description_text()
                },
        decreases 6 - i,
    {
        let g = GateId::ALL[i];
        assert(g == GateId::all_seq()[i as int]);
        let cell: &'static str = if g.ratchetable() {
            "yes"
        } else {
            "NO"
        };
        rows.push((g.as_kebab(), cell, g.description()));
        i = i + 1;
    }
    rows
}

/// What `avp explain` prints for a gate.
pub open spec fn explain_text(g: GateId) -> Seq<char> {
    g.kebab() + "\n  "@ + g.description_text() + "\n"@ + "\nRatchetable: "@ + (if g != GateId::DebugRemove {
        "true"@
    } else {
        "false"@
    }) + "\nDoctrine: PlausiDen-AVP-Doctrine/AVP2_PROTOCOL.md\n"@
}

/// What `avp explain <gate>` prints, or the unknown-gate error.
pub fn explain(gate: &str) -> (r: Result<String, UnknownGate>)
    ensures
        match r {
            Ok(t) => exists|g: GateId| g.kebab() == gate@ && t@ == explain_text(g),
            Err(e) => e.0@ == gate@ && forall|g: GateId| g.kebab() != gate@,
        },
{
    match GateId::parse_kebab(gate) {
        Ok(g) => {
            let mut s = String::new();
            push_str(&mut s, g.as_kebab());
            push_str(&mut s, "\n  ");
            push_str(&mut s, g.description());
            push_str(&mut s, "\n");
            push_str(&mut s, "\nRatchetable: ");
            push_str(&mut s, if g.ratchetable() {
                "true"
            } else {
                "false"
            });
            push_str(&mut s, "\nDoctrine: PlausiDen-AVP-Doctrine/AVP2_PROTOCOL.md\n");
            Ok(s)
        },
        Err(e) => Err(e),
    }
}

// ───────────────────────────── stubs ─────────────────────────────

/// Exit status of a subcommand this build does not implement.
pub const NOT_IMPLEMENTED_EXIT: u8 = 64;

/// What an unimplemented subcommand prints.
pub fn stub_message(name: &str) -> (r: String)
    ensures
        r@ == "avp: "@ + name@
            + " is not implemented yet (v0.1.0-dev). See task tracker in PlausiDen-AVP-Doctrine."@,
{
    let mut s = String::new();
    push_str(&mut s, "avp: ");
    push_str(&mut s, name);
    push_str(
        &mut s,
        " is not implemented yet (v0.1.0-dev). See task tracker in PlausiDen-AVP-Doctrine.",
    );
    s
}

/// The release tag `avp install` pins: `v` and this build's version.
pub fn version_tag() -> (r: String)
    ensures
        r@ == "v"@ + crate::VERSION@,
{
    let mut s = String::new();
    push_str(&mut s, "v");
    push_str(&mut s, crate::VERSION);
    s
}


// ───────────────────────────── laws ─────────────────────────────

/// The ratchet only ever lowers severity: a finding is an error after
/// the ratchet exactly when it was one before and no active override
/// covers it.
pub proof fn lemma_ratchet_only_downgrades(
    before: Finding,
    after: Finding,
    ratchet: RatchetFile,
    scope: Option<CrateName>,
    now: int,
)
    requires
        ratcheted(before, after, ratchet, scope, now),
    ensures
        after.severity == Severity::Error <==> (before.severity == Severity::Error && !downgraded(
            before,
            ratchet,
            scope,
            now,
        )),
        before.severity != Severity::Error ==> after.severity == before.severity && after.message@
            == before.message@,
{
}

/// Eliding never lengthens past the limit: a string longer than `n >= 1`
/// characters comes out exactly `n` characters long, ending in `…`; a
/// shorter one is unchanged.
pub proof fn lemma_elide_length(s: Seq<char>, n: nat)
    ensures
        s.len() <= n ==> elided(s, n) == s,
        s.len() > n && n >= 1 ==> elided(s, n).len() == n && elided(s, n).last() == '\u{2026}',
{
}

} // verus!
