//! Reporters: the text written for each finding and for the closing
//! summary.
//!
//! The GitHub Actions reporter writes `::level file=…,line=…::msg`
//! workflow commands that the runner surfaces inline on PR diffs; the
//! human reporter writes one terminal line per finding and an aggregate;
//! the JSON reporter frames JSON documents one per line.
//! Each reporter counts findings by severity; the caller writes the text
//! it returns to its output.

use vstd::prelude::*;

use crate::finding::{Finding, Severity};
use crate::text::{chars_of, decimal, push_char, push_decimal, push_str};

verus! {

/// Findings seen so far, by severity.
#[derive(Debug, Default, Clone, Copy, PartialEq, Eq, Structural)]
pub struct SeverityCounts {
    /// `Error` findings.
    pub error: u32,
    /// `Warning` findings.
    pub warning: u32,
    /// `Notice` findings.
    pub notice: u32,
}

impl SeverityCounts {
    /// The count for severity `s`.
    pub open spec fn of(self, s: Severity) -> u32 {
        match s {
            Severity::Error => self.error,
            Severity::Warning => self.warning,
            Severity::Notice => self.notice,
        }
    }

    /// No findings yet.
    pub fn new() -> (c: Self)
        ensures
            c.error == 0 && c.warning == 0 && c.notice == 0,
    {
        SeverityCounts { error: 0, warning: 0, notice: 0 }
    }

    /// Count one more finding of severity `s` (a count stays at
    /// `u32::MAX` once there).
    pub fn bump(&mut self, s: Severity)
        ensures
            final(self).of(s) == bumped(old(self).of(s)),
            forall|t: Severity| t != s ==> final(self).of(t) == old(self).of(t),
    {
        match s {
            Severity::Error => self.error = self.error.saturating_add(1),
            Severity::Warning => self.warning = self.warning.saturating_add(1),
            Severity::Notice => self.notice = self.notice.saturating_add(1),
        }
    }
}

/// One more than `n`, saturated to `u32`.
pub open spec fn bumped(n: u32) -> u32 {
    if n == u32::MAX {
        u32::MAX
    } else {
        (n + 1) as u32
    }
}

/// The workflow-command encoding of one character in data position.
pub open spec fn data_char(c: char) -> Seq<char> {
    if c == '%' {
        "%25"@
    } else if c == '\r' {
        "%0D"@
    } else if c == '\n' {
        "%0A"@
    } else {
        seq![c]
    }
}

/// The workflow-command encoding of one character in property position.
pub open spec fn property_char(c: char) -> Seq<char> {
    if c == ':' {
        "%3A"@
    } else if c == ',' {
        "%2C"@
    } else {
        data_char(c)
    }
}

/// `s` escaped for a workflow-command property (`%`, CR, LF, `:`, `,`).
pub open spec fn escaped_property(s: Seq<char>) -> Seq<char>
    decreases s.len(),
{
    if s.len() == 0 {
        Seq::empty()
    } else {
        escaped_property(s.drop_last()) + property_char(s.last())
    }
}

/// `s` escaped for workflow-command data (`%`, CR, LF).
pub open spec fn escaped_data(s: Seq<char>) -> Seq<char>
    decreases s.len(),
{
    if s.len() == 0 {
        Seq::empty()
    } else {
        escaped_data(s.drop_last()) + data_char(s.last())
    }
}

/// Escape `s` for a workflow-command property.
pub fn escape_property(s: &str) -> (r: String)
    ensures
        r@ == escaped_property(s@),
{
    let v = chars_of(s);
    let mut out = String::new();
    let mut i: usize = 0;
    while i < v.len()
        invariant
            i <= v@.len(),
            v@ == s@,
            out@ == escaped_property(v@.take(i as int)),
        decreases v.len() - i,
    {
        let c = v[i];
        assert(v@.take(i + 1).drop_last() =~= v@.take(i as int));
        assert(v@.take(i + 1).last() == c);
        if c == '%' {
            push_str(&mut out, "%25");
        } else if c == '\r' {
            push_str(&mut out, "%0D");
        } else if c == '\n' {
            push_str(&mut out, "%0A");
        } else if c == ':' {
            push_str(&mut out, "%3A");
        } else if c == ',' {
            push_str(&mut out, "%2C");
        } else {
            let ghost before = out@;
            push_char(&mut out, c);
            assert(out@ =~= before + seq![c]);
        }
        i = i + 1;
    }
    assert(v@.take(i as int) =~= s@);
    out
}

/// Escape `s` for workflow-command data.
pub fn escape_data(s: &str) -> (r: String)
    ensures
        r@ == escaped_data(s@),
{
    let v = chars_of(s);
    let mut out = String::new();
    let mut i: usize = 0;
    while i < v.len()
        invariant
            i <= v@.len(),
            v@ == s@,
            out@ == escaped_data(v@.take(i as int)),
        decreases v.len() - i,
    {
        let c = v[i];
        assert(v@.take(i + 1).drop_last() =~= v@.take(i as int));
        assert(v@.take(i + 1).last() == c);
        if c == '%' {
            push_str(&mut out, "%25");
        } else if c == '\r' {
            push_str(&mut out, "%0D");
        } else if c == '\n' {
            push_str(&mut out, "%0A");
        } else {
            let ghost before = out@;
            push_char(&mut out, c);
            assert(out@ =~= before + seq![c]);
        }
        i = i + 1;
    }
    assert(v@.take(i as int) =~= s@);
    out
}

/// Output formatter: the text for each finding, and a closing summary.
pub trait Reporter {
    /// The text for one finding (counted by severity).
    fn emit(&mut self, finding: &Finding) -> String;

    /// The closing summary.
    fn finalize(&mut self) -> String;
}

/// The annotation line for a finding.
pub open spec fn gh_line(f: Finding) -> Seq<char> {
    "::"@ + f.severity.keyword() + " file="@ + escaped_property(f.location.file@) + match f.location.line {
        Some(l) => ",line="@ + decimal(l as nat),
        None => Seq::empty(),
    } + match f.location.column {
        Some(c) => ",col="@ + decimal(c as nat),
        None => Seq::empty(),
    } + "::"@ + escaped_data("["@ + f.gate.kebab() + "] "@ + f.message@) + "\n"@
}

/// The summary notice for the given counts.
pub open spec fn gh_summary(c: SeverityCounts) -> Seq<char> {
    "::notice::AVP summary \u{2014} error="@ + decimal(c.error as nat) + " warning="@ + decimal(
        c.warning as nat,
    ) + " notice="@ + decimal(c.notice as nat) + "\n"@
}

/// GitHub Actions annotation reporter.
#[derive(Debug)]
pub struct GithubActionsReporter {
    counts: SeverityCounts,
}

impl GithubActionsReporter {
    /// Findings counted so far.
    pub closed spec fn counted(&self) -> SeverityCounts {
        self.counts
    }

    /// A reporter that has seen no finding.
    pub fn new() -> (r: Self)
        ensures
            r.counted() == SeverityCounts::new_spec(),
    {
        GithubActionsReporter { counts: SeverityCounts::new() }
    }

    /// The annotation line for `f`, counting it.
    pub fn emit(&mut self, f: &Finding) -> (r: String)
        ensures
            r@ == gh_line(*f),
            final(self).counted().of(f.severity) == bumped(old(self).counted().of(f.severity)),
            forall|t: Severity| t != f.severity ==> final(self).counted().of(t) == old(self).counted().of(t),
    {
        self.counts.bump(f.severity);
        let mut s = "::".to_string();
        push_str(&mut s, f.severity.gh_keyword());
        push_str(&mut s, " file=");
        let fe = escape_property(f.location.file.as_str());
        push_str(&mut s, fe.as_str());
        if let Some(line) = f.location.line {
            push_str(&mut s, ",line=");
            push_decimal(&mut s, line as u64);
        }
        if let Some(col) = f.location.column {
            push_str(&mut s, ",col=");
            push_decimal(&mut s, col as u64);
        }
        push_str(&mut s, "::");
        let mut data = "[".to_string();
        push_str(&mut data, f.gate.as_kebab());
        push_str(&mut data, "] ");
        push_str(&mut data, f.message.as_str());
        let de = escape_data(data.as_str());
        push_str(&mut s, de.as_str());
        push_str(&mut s, "\n");
        assert(s@ =~= gh_line(*f));
        s
    }

    /// The summary notice with the severity counts.
    pub fn finalize(&mut self) -> (r: String)
        ensures
            r@ == gh_summary(old(self).counted()),
            final(self).counted() == old(self).counted(),
    {
        let mut s = "::notice::AVP summary \u{2014} error=".to_string();
        push_decimal(&mut s, self.counts.error as u64);
        push_str(&mut s, " warning=");
        push_decimal(&mut s, self.counts.warning as u64);
        push_str(&mut s, " notice=");
        push_decimal(&mut s, self.counts.notice as u64);
        push_str(&mut s, "\n");
        assert(s@ =~= gh_summary(self.counts));
        s
    }
}

impl SeverityCounts {
    /// No findings.
    pub open spec fn new_spec() -> SeverityCounts {
        SeverityCounts { error: 0, warning: 0, notice: 0 }
    }
}

/// The label of a severity, colored with ANSI escapes when `colored`.
pub open spec fn painted(colored: bool, sev: Severity) -> Seq<char> {
    if !colored {
        sev.keyword()
    } else {
        match sev {
            Severity::Error => "\x1b[31merror\x1b[0m"@,
            Severity::Warning => "\x1b[33mwarning\x1b[0m"@,
            Severity::Notice => "\x1b[36mnotice\x1b[0m"@,
        }
    }
}

/// Where a finding is, as `file:line:col`, `file:line` or `file`.
pub open spec fn location_text(f: Finding) -> Seq<char> {
    match (f.location.line, f.location.column) {
        (Some(l), Some(c)) => f.location.file@ + ":"@ + decimal(l as nat) + ":"@ + decimal(c as nat),
        (Some(l), None) => f.location.file@ + ":"@ + decimal(l as nat),
        _ => f.location.file@,
    }
}

/// The terminal line for a finding.
pub open spec fn human_line(colored: bool, f: Finding) -> Seq<char> {
    "["@ + painted(colored, f.severity) + "] "@ + f.gate.kebab() + " "@ + location_text(f) + ": "@
        + f.message@ + "\n"@
}

/// The terminal summary for the given counts.
pub open spec fn human_summary(c: SeverityCounts) -> Seq<char> {
    "\u{2500}\u{2500} AVP summary: "@ + decimal(c.error as nat) + " error / "@ + decimal(
        c.warning as nat,
    ) + " warning / "@ + decimal(c.notice as nat) + " notice \u{2500}\u{2500}\n"@
}

/// Terminal-friendly reporter; ANSI color is opt-in.
#[derive(Debug)]
pub struct HumanReporter {
    colored: bool,
    counts: SeverityCounts,
}

impl HumanReporter {
    /// Findings counted so far.
    pub closed spec fn counted(&self) -> SeverityCounts {
        self.counts
    }

    /// Whether severities are colored.
    pub closed spec fn is_colored(&self) -> bool {
        self.colored
    }

    /// A reporter with explicit color setting that has seen no finding.
    pub fn new(colored: bool) -> (r: Self)
        ensures
            r.counted() == SeverityCounts::new_spec(),
            r.is_colored() == colored,
    {
        HumanReporter { colored, counts: SeverityCounts::new() }
    }

    /// The severity label, colored when the reporter colors.
    pub fn paint(&self, sev: Severity) -> (r: &'static str)
        ensures
            r@ == painted(self.is_colored(), sev),
    {
        if !self.colored {
            return sev.gh_keyword();
        }
        match sev {
            Severity::Error => "\x1b[31merror\x1b[0m",
            Severity::Warning => "\x1b[33mwarning\x1b[0m",
            Severity::Notice => "\x1b[36mnotice\x1b[0m",
        }
    }

    /// The terminal line for `f`, counting it.
    pub fn emit(&mut self, f: &Finding) -> (r: String)
        ensures
            r@ == human_line(old(self).is_colored(), *f),
            final(self).is_colored() == old(self).is_colored(),
            final(self).counted().of(f.severity) == bumped(old(self).counted().of(f.severity)),
            forall|t: Severity| t != f.severity ==> final(self).counted().of(t) == old(self).counted().of(t),
    {
        self.counts.bump(f.severity);
        let mut s = "[".to_string();
        push_str(&mut s, self.paint(f.severity));
        push_str(&mut s, "] ");
        push_str(&mut s, f.gate.as_kebab());
        push_str(&mut s, " ");
        push_str(&mut s, f.location.file.as_str());
        match (f.location.line, f.location.column) {
            (Some(l), Some(c)) => {
                push_str(&mut s, ":");
                push_decimal(&mut s, l as u64);
                push_str(&mut s, ":");
                push_decimal(&mut s, c as u64);
            },
            (Some(l), None) => {
                push_str(&mut s, ":");
                push_decimal(&mut s, l as u64);
            },
            _ => {},
        }
        push_str(&mut s, ": ");
        push_str(&mut s, f.message.as_str());
        push_str(&mut s, "\n");
        assert(s@ =~= human_line(self.colored, *f));
        s
    }

    /// The terminal summary with the severity counts.
    pub fn finalize(&mut self) -> (r: String)
        ensures
            r@ == human_summary(old(self).counted()),
            final(self).counted() == old(self).counted(),
            final(self).is_colored() == old(self).is_colored(),
    {
        let mut s = "\u{2500}\u{2500} AVP summary: ".to_string();
        push_decimal(&mut s, self.counts.error as u64);
        push_str(&mut s, " error / ");
        push_decimal(&mut s, self.counts.warning as u64);
        push_str(&mut s, " warning / ");
        push_decimal(&mut s, self.counts.notice as u64);
        push_str(&mut s, " notice \u{2500}\u{2500}\n");
        assert(s@ =~= human_summary(self.counts));
        s
    }
}

/// JSON-lines reporter: one JSON document per finding, then a summary
/// document with the severity counts. The documents are written by a
/// JSON serialiser outside the library; the reporter counts the
/// findings and frames one document per line.
#[derive(Debug)]
pub struct JsonReporter {
    counts: SeverityCounts,
}

impl JsonReporter {
    /// Findings counted so far.
    pub closed spec fn counted(&self) -> SeverityCounts {
        self.counts
    }

    /// A reporter that has seen no finding.
    pub fn new() -> (r: Self)
        ensures
            r.counted() == SeverityCounts::new_spec(),
    {
        JsonReporter { counts: SeverityCounts::new() }
    }

    /// The line for `f`, whose JSON document is `document`, counting it:
    /// the document and a newline.
    pub fn emit(&mut self, f: &Finding, document: &str) -> (r: String)
        ensures
            r@ == document@ + "\n"@,
            final(self).counted().of(f.severity) == bumped(old(self).counted().of(f.severity)),
            forall|t: Severity| t != f.severity ==> final(self).counted().of(t) == old(self).counted().of(t),
    {
        self.counts.bump(f.severity);
        let mut s = String::new();
        push_str(&mut s, document);
        push_str(&mut s, "\n");
        proof {
            reveal_strlit("");
        }
        assert(s@ =~= document@ + "\n"@);
        s
    }

    /// The counts the summary document reports (`error`, `warning` and
    /// `notice`).
    pub fn finalize(&mut self) -> (r: SeverityCounts)
        ensures
            r == old(self).counted(),
            final(self).counted() == old(self).counted(),
    {
        self.counts
    }
}

impl Reporter for GithubActionsReporter {
    fn emit(&mut self, finding: &Finding) -> (r: String)
        ensures
            r@ == gh_line(*finding),
            final(self).counted().of(finding.severity) == bumped(old(self).counted().of(finding.severity)),
            forall|t: Severity|
                t != finding.severity ==> final(self).counted().of(t) == old(self).counted().of(t),
    {
        GithubActionsReporter::emit(self, finding)
    }

    fn finalize(&mut self) -> (r: String)
        ensures
            r@ == gh_summary(old(self).counted()),
            final(self).counted() == old(self).counted(),
    {
        GithubActionsReporter::finalize(self)
    }
}

impl Reporter for HumanReporter {
    fn emit(&mut self, finding: &Finding) -> (r: String)
        ensures
            r@ == human_line(old(self).is_colored(), *finding),
            final(self).is_colored() == old(self).is_colored(),
            final(self).counted().of(finding.severity) == bumped(old(self).counted().of(finding.severity)),
            forall|t: Severity|
                t != finding.severity ==> final(self).counted().of(t) == old(self).counted().of(t),
    {
        HumanReporter::emit(self, finding)
    }

    fn finalize(&mut self) -> (r: String)
        ensures
            r@ == human_summary(old(self).counted()),
            final(self).counted() == old(self).counted(),
            final(self).is_colored() == old(self).is_colored(),
    {
        HumanReporter::finalize(self)
    }
}

} // verus!
