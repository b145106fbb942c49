//! Findings — the structured output of a gate run, consumed by reporters.

use vstd::prelude::*;

use crate::gate::GateId;

verus! {

/// Severity ladder. Maps to GitHub Actions log levels and to ANSI colors
/// in the human reporter.
#[derive(Debug, Copy, Clone, PartialEq, Eq, Hash, Structural)]
#[non_exhaustive]
pub enum Severity {
    /// Informational; never fails CI.
    Notice,
    /// Soft signal; never fails CI but flagged in reports.
    Warning,
    /// Hard finding; CI fails.
    Error,
}

impl Severity {
    /// The GitHub Actions annotation keyword of this severity.
    pub open spec fn keyword(self) -> Seq<char> {
        match self {
            Severity::Notice => "notice"@,
            Severity::Warning => "warning"@,
            Severity::Error => "error"@,
        }
    }

    /// GitHub Actions annotation prefix (`notice`, `warning`, `error`).
    pub fn gh_keyword(self) -> (r: &'static str)
        ensures
            r@ == self.keyword(),
    {
        match self {
            Severity::Notice => "notice",
            Severity::Warning => "warning",
            Severity::Error => "error",
        }
    }

    /// Whether a finding at this severity fails CI: only `Error` does.
    pub fn is_failing(self) -> (r: bool)
        ensures
            r == (self == Severity::Error),
    {
        match self {
            Severity::Error => true,
            _ => false,
        }
    }
}

/// Where a finding lives in the source tree.
#[derive(Debug, Clone, PartialEq, Eq)]
#[non_exhaustive]
pub struct Location {
    /// Repo-relative path.
    pub file: String,
    /// 1-based line number, or `None` for whole-file findings.
    pub line: Option<u32>,
    /// 1-based column, or `None`.
    pub column: Option<u32>,
}

impl Location {
    /// File-only location (no line, no column).
    pub fn file(file: &str) -> (r: Self)
        ensures
            r.file@ == file@,
            r.line is None,
            r.column is None,
    {
        Location { file: file.to_string(), line: None, column: None }
    }

    /// File and 1-based line.
    pub fn line(file: &str, line: u32) -> (r: Self)
        ensures
            r.file@ == file@,
            r.line == Some(line),
            r.column is None,
    {
        Location { file: file.to_string(), line: Some(line), column: None }
    }

    /// File, 1-based line and column.
    pub fn pin(file: &str, line: u32, column: u32) -> (r: Self)
        ensures
            r.file@ == file@,
            r.line == Some(line),
            r.column == Some(column),
    {
        Location { file: file.to_string(), line: Some(line), column: Some(column) }
    }

    /// A field-for-field copy.
    pub fn duplicate(&self) -> (r: Self)
        ensures
            r == *self,
    {
        Location { file: self.file.clone(), line: self.line, column: self.column }
    }
}

/// A single gate finding.
#[derive(Debug, Clone, PartialEq, Eq)]
#[non_exhaustive]
pub struct Finding {
    /// Which gate produced this.
    pub gate: GateId,
    /// Severity (only `Error` fails CI).
    pub severity: Severity,
    /// Where in the tree.
    pub location: Location,
    /// Free-form human message.
    pub message: String,
    /// Optional suggestion for ratcheting this finding.
    pub suggested_ratchet: Option<RatchetSuggestion>,
}

impl Finding {
    /// The finding these constructors build.
    pub open spec fn built(r: Finding, gate: GateId, sev: Severity, location: Location, message: Seq<char>) -> bool {
        &&& r.gate == gate
        &&& r.severity == sev
        &&& r.location == location
        &&& r.message@ == message
        &&& r.suggested_ratchet is None
    }

    /// A hard `Error` finding.
    pub fn error(gate: GateId, location: Location, message: &str) -> (r: Self)
        ensures
            Self::built(r, gate, Severity::Error, location, message@),
    {
        Finding {
            gate,
            severity: Severity::Error,
            location,
            message: message.to_string(),
            suggested_ratchet: None,
        }
    }

    /// A soft `Warning` finding.
    pub fn warning(gate: GateId, location: Location, message: &str) -> (r: Self)
        ensures
            Self::built(r, gate, Severity::Warning, location, message@),
    {
        Finding {
            gate,
            severity: Severity::Warning,
            location,
            message: message.to_string(),
            suggested_ratchet: None,
        }
    }

    /// An informational `Notice` finding.
    pub fn notice(gate: GateId, location: Location, message: &str) -> (r: Self)
        ensures
            Self::built(r, gate, Severity::Notice, location, message@),
    {
        Finding {
            gate,
            severity: Severity::Notice,
            location,
            message: message.to_string(),
            suggested_ratchet: None,
        }
    }

    /// This finding with a ratchet suggestion attached; every other field
    /// is unchanged.
    pub fn with_suggestion(self, suggestion: RatchetSuggestion) -> (r: Self)
        ensures
            r == (Finding { suggested_ratchet: Some(suggestion), ..self }),
    {
        let mut me = self;
        me.suggested_ratchet = Some(suggestion);
        me
    }
}

/// What `avp ratchet add` should write if the user accepts a finding.
#[derive(Debug, Clone, PartialEq, Eq)]
#[non_exhaustive]
pub struct RatchetSuggestion {
    /// Which gate to ratchet.
    pub gate: GateId,
    /// Suggested crate scope (`None` = global).
    pub crate_scope: Option<String>,
    /// Suggested file regex (`None` = no file restriction).
    pub file_regex: Option<String>,
    /// Pre-filled reason placeholder.
    pub reason: String,
}

impl RatchetSuggestion {
    /// Construct a suggestion.
    pub fn new(gate: GateId, crate_scope: Option<String>, file_regex: Option<String>, reason: String) -> (r: Self)
        ensures
            r.gate == gate,
            r.crate_scope == crate_scope,
            r.file_regex == file_regex,
            r.reason == reason,
    {
        RatchetSuggestion { gate, crate_scope, file_regex, reason }
    }
}

/// `f` is the `Error` finding of `gate` at file `e.0`, line `e.1`, with
/// message `e.2` and no ratchet suggestion.
pub open spec fn is_line_error(f: Finding, gate: GateId, e: (Seq<char>, u32, Seq<char>)) -> bool {
    &&& f.gate == gate
    &&& f.severity == Severity::Error
    &&& f.location.file@ == e.0
    &&& f.location.line == Some(e.1)
    &&& f.location.column is None
    &&& f.message@ == e.2
    &&& f.suggested_ratchet is None
}

/// `fs` are exactly the `Error` findings of `gate` described by `es`, in
/// order.
pub open spec fn line_errors(fs: Seq<Finding>, gate: GateId, es: Seq<(Seq<char>, u32, Seq<char>)>) -> bool {
    &&& fs.len() == es.len()
    &&& forall|k: int| 0 <= k < fs.len() ==> is_line_error(#[trigger] fs[k], gate, es[k])
}

/// Appending the findings for `more` to findings for `es` gives the
/// findings for both.
pub proof fn lemma_line_errors_append(
    fs: Seq<Finding>,
    gs: Seq<Finding>,
    gate: GateId,
    es: Seq<(Seq<char>, u32, Seq<char>)>,
    more: Seq<(Seq<char>, u32, Seq<char>)>,
)
    requires
        line_errors(fs, gate, es),
        line_errors(gs, gate, more),
    ensures
        line_errors(fs + gs, gate, es + more),
{
    assert forall|k: int| 0 <= k < (fs + gs).len() implies is_line_error(
        #[trigger] (fs + gs)[k],
        gate,
        (es + more)[k],
    ) by {
        if k >= fs.len() {
            assert((fs + gs)[k] == gs[k - fs.len()]);
            assert((es + more)[k] == more[k - fs.len()]);
        }
    }
}

} // verus!
