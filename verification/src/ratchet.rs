//! Per-repo ratchet overrides: temporary, signed, time-boxed exemptions
//! from specific gates.
//!
//! Each entry names a gate, an optional scope (crate name, file regex),
//! a reason, an accountable signer, an opening date and a hard expiry
//! after which its gate re-engages and CI fails. Dates are Julian day
//! numbers.

use vstd::prelude::*;

use crate::gate::GateId;
use crate::gate::UnknownGate;
use crate::newtype::{
    crate_name_error, signer_error, valid_crate_name, valid_signer, CrateName, NewtypeError,
    SignerEmail,
};
use crate::text::{chars_of, is_blank, str_eq, trim};
use vstd::std_specs::cmp::PartialEqSpecImpl;

verus! {

/// Whether `regex` accepts `pattern` (`Regex::new` succeeds).
pub uninterp spec fn regex_valid(pattern: Seq<char>) -> bool;

/// Whether the regex `pattern` matches somewhere in `haystack`.
pub uninterp spec fn regex_match(pattern: Seq<char>, haystack: Seq<char>) -> bool;

/// The error `regex` reports for a pattern it rejects.
#[verifier::external_type_specification]
#[verifier::external_body]
pub struct ExRegexError(regex::Error);

/// Trusted: wraps `regex::Regex::new`, keeping only whether it succeeded
/// and its error. `Ok` exactly when the pattern is valid; which patterns
/// are valid is left to the name `regex_valid`.
#[verifier::external_body]
fn regex_parse(pattern: &str) -> (r: Result<(), regex::Error>)
    ensures
        r is Ok <==> regex_valid(pattern@),
{
    match regex::Regex::new(pattern) {
        Ok(_) => Ok(()),
        Err(e) => Err(e),
    }
}

/// Trusted: wraps `Regex::is_match` on the regex compiled from a valid
/// pattern. The answer is the name `regex_match` of the pattern and the
/// haystack; the matching rules are not stated.
#[verifier::external_body]
fn regex_is_match(pattern: &str, haystack: &str) -> (r: bool)
    requires
        regex_valid(pattern@),
    ensures
        r == regex_match(pattern@, haystack@),
{
    match regex::Regex::new(pattern) {
        Ok(re) => re.is_match(haystack),
        Err(_) => false,
    }
}

/// What an override entry holds, with its texts as characters.
pub struct EntryView {
    /// Target gate.
    pub gate: GateId,
    /// Crate scope as written.
    pub crate_scope: Option<Seq<char>>,
    /// File regex as written.
    pub file: Option<Seq<char>>,
    /// Justification.
    pub reason: Seq<char>,
    /// Signer as written.
    pub signed_by: Seq<char>,
    /// Opening day.
    pub opened: int,
    /// Last day the override applies.
    pub expires_after: int,
    /// The crate scope, once validated.
    pub crate_checked: Option<Seq<char>>,
    /// The file regex, once compiled.
    pub file_checked: Option<Seq<char>>,
    /// Whether the signer was validated.
    pub signer_checked: bool,
}

/// One `[[overrides]]` entry.
#[derive(Debug, Clone)]
#[non_exhaustive]
pub struct RatchetEntry {
    /// Which gate this override targets.
    pub gate: GateId,
    /// Optional crate-name scope, as written.
    pub crate_scope: Option<String>,
    /// Optional file-path regex (matched against repo-relative paths).
    pub file: Option<String>,
    /// Free-text justification.
    pub reason: String,
    /// Accountable signer email, as written.
    pub signed_by: String,
    /// Opening date (Julian day).
    pub opened: i32,
    /// Hard expiry, inclusive (Julian day): from the next day on the
    /// override no longer applies.
    pub expires_after: i32,
    file_re: Option<String>,
    crate_validated: Option<CrateName>,
    signed_by_validated: Option<SignerEmail>,
}

/// The characters of an optional string.
pub open spec fn opt_chars(o: Option<String>) -> Option<Seq<char>> {
    match o {
        Some(s) => Some(s@),
        None => None,
    }
}

impl View for RatchetEntry {
    type V = EntryView;

    closed spec fn view(&self) -> EntryView {
        EntryView {
            gate: self.gate,
            crate_scope: opt_chars(self.crate_scope),
            file: opt_chars(self.file),
            reason: self.reason@,
            signed_by: self.signed_by@,
            opened: self.opened as int,
            expires_after: self.expires_after as int,
            crate_checked: match self.crate_validated {
                Some(c) => Some(c@),
                None => None,
            },
            file_checked: opt_chars(self.file_re),
            signer_checked: self.signed_by_validated is Some,
        }
    }
}

/// Ratchet validation errors. Reading and parsing the file fail with
/// the first two; the rest name the entry (0-based) that breaks a rule.
#[derive(Debug)]
#[non_exhaustive]
pub enum RatchetError {
    /// The file could not be read.
    Io {
        /// Path that failed.
        path: String,
        /// What the system reported.
        message: String,
    },
    /// The file is not valid TOML for this schema.
    TomlParse(String),
    /// Empty (or blank) `reason`.
    EmptyReason {
        /// Index of the offending entry.
        idx: usize,
    },
    /// `signed_by` failed validation.
    Signer {
        /// Index of the offending entry.
        idx: usize,
        /// Underlying newtype error.
        source: NewtypeError,
    },
    /// `crate` failed validation.
    Crate {
        /// Index of the offending entry.
        idx: usize,
        /// Underlying newtype error.
        source: NewtypeError,
    },
    /// `expires_after` is not strictly after `opened`.
    ExpiryBeforeOpen {
        /// Index of the offending entry.
        idx: usize,
        /// `opened` (Julian day).
        opened: i32,
        /// `expires_after` (Julian day).
        expires_after: i32,
    },
    /// `file` is not a valid regex.
    Regex {
        /// Index of the offending entry.
        idx: usize,
        /// Underlying regex error.
        source: regex::Error,
    },
    /// Unknown gate id.
    UnknownGate(UnknownGate),
    /// This gate does not accept overrides.
    GateNotRatchetable {
        /// Index of the offending entry.
        idx: usize,
        /// Which gate.
        gate: GateId,
    },
}

/// The values an entry's validation error carries: the signer or crate
/// name it rejected (with the rule broken), the two dates, or the
/// entry's gate id.
pub open spec fn carries(e: RatchetError, v: EntryView) -> bool {
    match e {
        RatchetError::Signer { source, .. } => source.kind() == signer_error(v.signed_by)
            && source.payload() == v.signed_by,
        RatchetError::Crate { source, .. } => v.crate_scope matches Some(c) && source.kind()
            == crate_name_error(c) && source.payload() == c,
        RatchetError::ExpiryBeforeOpen { opened, expires_after, .. } => opened == v.opened
            && expires_after == v.expires_after,
        RatchetError::GateNotRatchetable { gate, .. } => gate == v.gate,
        _ => true,
    }
}

/// Which rule an entry breaks.
#[derive(Debug, Copy, Clone, PartialEq, Eq, Structural)]
pub enum EntryFault {
    /// Blank reason.
    EmptyReason,
    /// Invalid signer.
    Signer,
    /// Invalid crate name.
    Crate,
    /// Expiry not after opening.
    ExpiryBeforeOpen,
    /// Invalid file regex.
    Regex,
    /// Gate not ratchetable.
    GateNotRatchetable,
}

impl RatchetError {
    /// The rule an entry error reports, and the entry's index.
    pub open spec fn entry_fault(self) -> Option<(EntryFault, int)> {
        match self {
            RatchetError::EmptyReason { idx } => Some((EntryFault::EmptyReason, idx as int)),
            RatchetError::Signer { idx, .. } => Some((EntryFault::Signer, idx as int)),
            RatchetError::Crate { idx, .. } => Some((EntryFault::Crate, idx as int)),
            RatchetError::ExpiryBeforeOpen { idx, .. } => Some(
                (EntryFault::ExpiryBeforeOpen, idx as int),
            ),
            RatchetError::Regex { idx, .. } => Some((EntryFault::Regex, idx as int)),
            RatchetError::GateNotRatchetable { idx, .. } => Some(
                (EntryFault::GateNotRatchetable, idx as int),
            ),
            _ => None,
        }
    }
}

/// The first rule an entry breaks, checked in order: blank reason,
/// signer, crate name, dates, file regex, gate.
pub open spec fn entry_fault_of(e: EntryView) -> Option<EntryFault> {
    if trim(e.reason).len() == 0 {
        Some(EntryFault::EmptyReason)
    } else if !valid_signer(e.signed_by) {
        Some(EntryFault::Signer)
    } else if e.crate_scope matches Some(c) && !valid_crate_name(c) {
        Some(EntryFault::Crate)
    } else if e.expires_after <= e.opened {
        Some(EntryFault::ExpiryBeforeOpen)
    } else if e.file matches Some(f) && !regex_valid(f) {
        Some(EntryFault::Regex)
    } else if e.gate == GateId::DebugRemove {
        Some(EntryFault::GateNotRatchetable)
    } else {
        None
    }
}

/// The entry has been validated: signer, crate scope and file regex
/// are checked and cached.
pub open spec fn validated(e: EntryView) -> bool {
    &&& entry_fault_of(e) is None
    &&& e.signer_checked
    &&& (e.crate_scope is Some ==> e.crate_checked == e.crate_scope)
    &&& (e.file is Some ==> e.file_checked == e.file)
}

/// A cached file regex is one `regex` accepts.
pub open spec fn regex_ok(e: EntryView) -> bool {
    e.file_checked matches Some(re) ==> regex_valid(re)
}

/// `after` is `before` with nothing but its caches changed.
pub open spec fn same_source(before: EntryView, after: EntryView) -> bool {
    &&& after.gate == before.gate
    &&& after.crate_scope == before.crate_scope
    &&& after.file == before.file
    &&& after.reason == before.reason
    &&& after.signed_by == before.signed_by
    &&& after.opened == before.opened
    &&& after.expires_after == before.expires_after
}

/// Whether an entry covers a finding of `gate` in crate `crate_scope`
/// at `path`: its gate must be the entry's, and the validated crate
/// scope and file regex, when present, must match.
pub open spec fn entry_matches(
    e: EntryView,
    gate: GateId,
    crate_scope: Option<Seq<char>>,
    path: Option<Seq<char>>,
) -> bool {
    &&& e.gate == gate
    &&& (e.crate_checked matches Some(want) ==> crate_scope == Some(want))
    &&& (e.file_checked matches Some(re) ==> (path matches Some(p) && regex_match(re, p)))
}

/// The entry no longer applies on day `now`.
pub open spec fn expired_on(e: EntryView, now: int) -> bool {
    now > e.expires_after
}

impl RatchetEntry {
    /// An entry as written, not yet validated.
    pub fn new(
        gate: GateId,
        crate_scope: Option<String>,
        file: Option<String>,
        reason: String,
        signed_by: String,
        opened: i32,
        expires_after: i32,
    ) -> (e: Self)
        ensures
            e@.gate == gate,
            e@.crate_scope == opt_chars(crate_scope),
            e@.file == opt_chars(file),
            e@.reason == reason@,
            e@.signed_by == signed_by@,
            e@.opened == opened,
            e@.expires_after == expires_after,
            e@.crate_checked is None,
            e@.file_checked is None,
            !e@.signer_checked,
    {
        RatchetEntry {
            gate,
            crate_scope,
            file,
            reason,
            signed_by,
            opened,
            expires_after,
            file_re: None,
            crate_validated: None,
            signed_by_validated: None,
        }
    }

    /// Run all validity checks in order (reason, signer, crate name,
    /// dates, file regex, gate), caching the validated forms; `idx` is the
    /// entry's 0-based position, reported with the first rule broken.
    pub fn validate(&mut self, idx: usize) -> (r: Result<(), RatchetError>)
        ensures
            same_source(old(self)@, final(self)@),
            r is Ok <==> entry_fault_of(old(self)@) is None,
            r is Ok ==> validated(final(self)@),
            r matches Err(e) ==> e.entry_fault() == Some((entry_fault_of(old(self)@)->0, idx as int))
                && carries(e, old(self)@),
            regex_ok(old(self)@) ==> regex_ok(final(self)@),
            old(self)@.crate_scope is None ==> final(self)@.crate_checked == old(self)@.crate_checked,
            old(self)@.file is None ==> final(self)@.file_checked == old(self)@.file_checked,
    {
        let rv = chars_of(self.reason.as_str());
        if is_blank(rv.as_slice()) {
            return Err(RatchetError::EmptyReason { idx });
        }
        let signer = match SignerEmail::new(self.signed_by.as_str()) {
            Ok(s) => s,
            Err(source) => {
                return Err(RatchetError::Signer { idx, source });
            },
        };
        self.signed_by_validated = Some(signer);
        if let Some(name) = &self.crate_scope {
            match CrateName::new(name.as_str()) {
                Ok(c) => {
                    self.crate_validated = Some(c);
                },
                Err(source) => {
                    return Err(RatchetError::Crate { idx, source });
                },
            }
        }
        if self.expires_after <= self.opened {
            return Err(
                RatchetError::ExpiryBeforeOpen {
                    idx,
                    opened: self.opened,
                    expires_after: self.expires_after,
                },
            );
        }
        if let Some(pat) = &self.file {
            match regex_parse(pat.as_str()) {
                Ok(()) => {
                    self.file_re = Some(pat.clone());
                },
                Err(source) => {
                    return Err(RatchetError::Regex { idx, source });
                },
            }
        }
        if !self.gate.ratchetable() {
            return Err(RatchetError::GateNotRatchetable { idx, gate: self.gate });
        }
        Ok(())
    }

    /// Which gate this override targets.
    pub fn gate_id(&self) -> (r: GateId)
        ensures
            r == self@.gate,
    {
        self.gate
    }

    /// The signer as written.
    pub fn signed_by_text(&self) -> (r: &str)
        ensures
            r@ == self@.signed_by,
    {
        self.signed_by.as_str()
    }

    /// The reason as written.
    pub fn reason_text(&self) -> (r: &str)
        ensures
            r@ == self@.reason,
    {
        self.reason.as_str()
    }

    /// The crate scope as written.
    pub fn crate_scope_text(&self) -> (r: Option<&str>)
        ensures
            opt_str(r) == self@.crate_scope,
    {
        match &self.crate_scope {
            Some(c) => Some(c.as_str()),
            None => None,
        }
    }

    /// The file regex as written.
    pub fn file_text(&self) -> (r: Option<&str>)
        ensures
            opt_str(r) == self@.file,
    {
        match &self.file {
            Some(f) => Some(f.as_str()),
            None => None,
        }
    }

    /// True once the day `now` is past the expiry date.
    pub fn is_expired(&self, now: i32) -> (r: bool)
        ensures
            r == expired_on(self@, now as int),
    {
        now > self.expires_after
    }

    /// Days until expiry; negative once expired.
    pub fn days_until_expiry(&self, now: i32) -> (r: i64)
        ensures
            r == self@.expires_after - now,
    {
        (self.expires_after as i64) - (now as i64)
    }

    /// Days since the entry was opened.
    pub fn days_open(&self, now: i32) -> (r: i64)
        ensures
            r == now - self@.opened,
    {
        (now as i64) - (self.opened as i64)
    }

    /// Whether this entry covers a finding of `gate`, in crate
    /// `crate_scope`, at the repo-relative `path`.
    pub fn matches(&self, gate: GateId, crate_scope: Option<&CrateName>, path: Option<&str>) -> (r: bool)
        requires
            regex_ok(self@),
        ensures
            r == entry_matches(
                self@,
                gate,
                match crate_scope {
                    Some(c) => Some(c@),
                    None => None,
                },
                opt_str(path),
            ),
    {
        if self.gate != gate {
            return false;
        }
        if let Some(want) = &self.crate_validated {
            match crate_scope {
                Some(have) => {
                    if !str_eq(have.as_str(), want.as_str()) {
                        return false;
                    }
                },
                None => {
                    return false;
                },
            }
        }
        if let Some(re) = &self.file_re {
            match path {
                Some(p) => {
                    if !regex_is_match(re.as_str(), p) {
                        return false;
                    }
                },
                None => {
                    return false;
                },
            }
        }
        true
    }
}

/// The characters of an optional string slice.
pub open spec fn opt_str(o: Option<&str>) -> Option<Seq<char>> {
    match o {
        Some(s) => Some(s@),
        None => None,
    }
}

/// The views of a sequence of entries.
pub open spec fn entry_views(v: Seq<RatchetEntry>) -> Seq<EntryView> {
    v.map_values(|e: RatchetEntry| e@)
}

/// The views of a sequence of entry references.
pub open spec fn ref_views(v: Seq<&RatchetEntry>) -> Seq<EntryView> {
    v.map_values(|e: &RatchetEntry| e@)
}

/// The entries still applying on day `now`, in order.
pub open spec fn unexpired(es: Seq<EntryView>, now: int) -> Seq<EntryView>
    decreases es.len(),
{
    if es.len() == 0 {
        Seq::empty()
    } else if expired_on(es.last(), now) {
        unexpired(es.drop_last(), now)
    } else {
        unexpired(es.drop_last(), now).push(es.last())
    }
}

/// The entries expired on day `now`, in order.
pub open spec fn expired_ones(es: Seq<EntryView>, now: int) -> Seq<EntryView>
    decreases es.len(),
{
    if es.len() == 0 {
        Seq::empty()
    } else if expired_on(es.last(), now) {
        expired_ones(es.drop_last(), now).push(es.last())
    } else {
        expired_ones(es.drop_last(), now)
    }
}

/// The entry expires within `window` days of `now` (and has not yet).
pub open spec fn expiring_within(e: EntryView, now: int, window: int) -> bool {
    0 <= e.expires_after - now <= window
}

/// The entries expiring within `window` days of `now`, in order.
pub open spec fn expiring(es: Seq<EntryView>, now: int, window: int) -> Seq<EntryView>
    decreases es.len(),
{
    if es.len() == 0 {
        Seq::empty()
    } else if expiring_within(es.last(), now, window) {
        expiring(es.drop_last(), now, window).push(es.last())
    } else {
        expiring(es.drop_last(), now, window)
    }
}

/// The first entry breaking a rule is at `i`, and it breaks `f`.
pub open spec fn first_fault(es: Seq<EntryView>, i: int) -> bool {
    &&& 0 <= i < es.len()
    &&& entry_fault_of(es[i]) is Some
    &&& forall|j: int| 0 <= j < i ==> entry_fault_of(#[trigger] es[j]) is None
}

/// What a validation of a file with the entries `before` makes of them:
/// `after` holds the same entries with only their caches changed; it
/// succeeds exactly when no entry breaks a rule, and then every entry is
/// validated; otherwise `r` reports the first entry breaking a rule.
pub open spec fn file_validation(
    before: Seq<EntryView>,
    after: Seq<EntryView>,
    r: Result<(), RatchetError>,
) -> bool {
    &&& after.len() == before.len()
    &&& forall|i: int| 0 <= i < before.len() ==> same_source(#[trigger] before[i], after[i])
    &&& (r is Ok <==> forall|i: int| 0 <= i < before.len() ==> entry_fault_of(#[trigger] before[i]) is None)
    &&& (r is Ok ==> forall|i: int| 0 <= i < after.len() ==> validated(#[trigger] after[i]))
    &&& (r matches Err(e) ==> exists|i: int|
        first_fault(before, i) && e.entry_fault() == Some((entry_fault_of(before[i])->0, i))
            && carries(e, before[i]))
}

/// Top-level ratchet file: the override entries in source order. A
/// missing file is the empty file.
#[derive(Debug, Clone)]
#[non_exhaustive]
pub struct RatchetFile {
    /// Override entries, in source order.
    pub entries: Vec<RatchetEntry>,
}

impl Default for RatchetFile {
    fn default() -> (f: Self)
        ensures
            f.entries@.len() == 0,
    {
        RatchetFile { entries: Vec::new() }
    }
}

impl RatchetFile {
    /// A file holding `entries`.
    pub fn new(entries: Vec<RatchetEntry>) -> (f: Self)
        ensures
            f.entries == entries,
    {
        RatchetFile { entries }
    }

    /// Every cached regex is valid.
    pub open spec fn regexes_ok(self) -> bool {
        forall|i: int| 0 <= i < self.entries@.len() ==> regex_ok(#[trigger] self.entries@[i]@)
    }

    /// Validate every entry in order; the first entry breaking a rule is
    /// reported with its index.
    pub fn validate(&mut self) -> (r: Result<(), RatchetError>)
        requires
            old(self).regexes_ok(),
        ensures
            final(self).entries@.len() == old(self).entries@.len(),
            final(self).regexes_ok(),
            forall|i: int|
                0 <= i < old(self).entries@.len() ==> same_source(
                    #[trigger] old(self).entries@[i]@,
                    final(self).entries@[i]@,
                ),
            r is Ok <==> forall|i: int|
                0 <= i < old(self).entries@.len() ==> entry_fault_of(#[trigger] old(self).entries@[i]@)
                    is None,
            r is Ok ==> forall|i: int|
                0 <= i < final(self).entries@.len() ==> validated(#[trigger] final(self).entries@[i]@),
            r matches Err(e) ==> exists|i: int|
                first_fault(entry_views(old(self).entries@), i) && e.entry_fault() == Some(
                    (entry_fault_of(old(self).entries@[i]@)->0, i),
                ) && carries(e, old(self).entries@[i]@),
            file_validation(entry_views(old(self).entries@), entry_views(final(self).entries@), r),
    {
        let ghost start = self.entries@;
        let mut i: usize = 0;
        while i < self.entries.len()
            invariant
                start == old(self).entries@,
                i <= self.entries@.len(),
                self.entries@.len() == start.len(),
                forall|j: int| 0 <= j < self.entries@.len() ==> regex_ok(#[trigger] self.entries@[j]@),
                forall|j: int|
                    0 <= j < start.len() ==> same_source(#[trigger] start[j]@, self.entries@[j]@),
                forall|j: int| i <= j < start.len() ==> #[trigger] self.entries@[j] == start[j],
                forall|j: int| 0 <= j < i ==> entry_fault_of(#[trigger] start[j]@) is None,
                forall|j: int| 0 <= j < i ==> validated(#[trigger] self.entries@[j]@),
            decreases start.len() - i,
        {
            let ghost before = self.entries@;
            let res = self.entries[i].validate(i);
            assert(forall|j: int| 0 <= j < start.len() && j != i ==> self.entries@[j] == before[j]);
            assert(same_source(start[i as int]@, self.entries@[i as int]@));
            match res {
                Ok(()) => {},
                Err(e) => {
                    assert(first_fault(entry_views(start), i as int)) by {
                        assert(entry_views(start)[i as int] == start[i as int]@);
                        assert forall|j: int| 0 <= j < i implies entry_fault_of(
                            #[trigger] entry_views(start)[j],
                        ) is None by {
                            assert(entry_views(start)[j] == start[j]@);
                        }
                    }
                    return Err(e);
                },
            }
            i = i + 1;
        }
        proof {
            let a = entry_views(start);
            let b = entry_views(self.entries@);
            assert forall|j: int| 0 <= j < a.len() implies same_source(#[trigger] a[j], b[j]) by {
                assert(a[j] == start[j]@ && b[j] == self.entries@[j]@);
            }
            assert forall|j: int| 0 <= j < a.len() implies entry_fault_of(#[trigger] a[j]) is None by {
                assert(a[j] == start[j]@);
            }
            assert forall|j: int| 0 <= j < b.len() implies validated(#[trigger] b[j]) by {
                assert(b[j] == self.entries@[j]@);
            }
        }
        Ok(())
    }

    /// The entries still applying on day `now`, in order.
    pub fn active(&self, now: i32) -> (r: Vec<&RatchetEntry>)
        ensures
            ref_views(r@) == unexpired(entry_views(self.entries@), now as int),
    {
        let ghost all = entry_views(self.entries@);
        let mut out: Vec<&RatchetEntry> = Vec::new();
        let mut i: usize = 0;
        while i < self.entries.len()
            invariant
                i <= self.entries@.len(),
                all == entry_views(self.entries@),
                ref_views(out@) == unexpired(all.take(i as int), now as int),
            decreases self.entries.len() - i,
        {
            assert(all.take(i + 1).drop_last() =~= all.take(i as int));
            assert(all.take(i + 1).last() == self.entries@[i as int]@);
            let ghost before = out@;
            if !self.entries[i].is_expired(now) {
                out.push(&self.entries[i]);
                assert(ref_views(out@) =~= ref_views(before).push(self.entries@[i as int]@));
            }
            i = i + 1;
        }
        assert(all.take(i as int) =~= all);
        out
    }

    /// The expired entries as of day `now`, in order: these fail CI.
    pub fn expired(&self, now: i32) -> (r: Vec<&RatchetEntry>)
        ensures
            ref_views(r@) == expired_ones(entry_views(self.entries@), now as int),
    {
        let ghost all = entry_views(self.entries@);
        let mut out: Vec<&RatchetEntry> = Vec::new();
        let mut i: usize = 0;
        while i < self.entries.len()
            invariant
                i <= self.entries@.len(),
                all == entry_views(self.entries@),
                ref_views(out@) == expired_ones(all.take(i as int), now as int),
            decreases self.entries.len() - i,
        {
            assert(all.take(i + 1).drop_last() =~= all.take(i as int));
            assert(all.take(i + 1).last() == self.entries@[i as int]@);
            let ghost before = out@;
            if self.entries[i].is_expired(now) {
                out.push(&self.entries[i]);
                assert(ref_views(out@) =~= ref_views(before).push(self.entries@[i as int]@));
            }
            i = i + 1;
        }
        assert(all.take(i as int) =~= all);
        out
    }

    /// The entries whose expiry is between `now` and `window_days` days
    /// after it, in order.
    pub fn expiring_soon(&self, now: i32, window_days: u16) -> (r: Vec<&RatchetEntry>)
        ensures
            ref_views(r@) == expiring(entry_views(self.entries@), now as int, window_days as int),
    {
        let ghost all = entry_views(self.entries@);
        let mut out: Vec<&RatchetEntry> = Vec::new();
        let mut i: usize = 0;
        while i < self.entries.len()
            invariant
                i <= self.entries@.len(),
                all == entry_views(self.entries@),
                ref_views(out@) == expiring(all.take(i as int), now as int, window_days as int),
            decreases self.entries.len() - i,
        {
            assert(all.take(i + 1).drop_last() =~= all.take(i as int));
            assert(all.take(i + 1).last() == self.entries@[i as int]@);
            let ghost before = out@;
            let days = self.entries[i].days_until_expiry(now);
            if days >= 0 && days <= window_days as i64 {
                out.push(&self.entries[i]);
                assert(ref_views(out@) =~= ref_views(before).push(self.entries@[i as int]@));
            }
            i = i + 1;
        }
        assert(all.take(i as int) =~= all);
        out
    }

    /// Some entry still applying on day `now` covers a finding of `gate`
    /// in crate `crate_scope` at `path`.
    pub open spec fn covering(
        self,
        gate: GateId,
        crate_scope: Option<Seq<char>>,
        path: Option<Seq<char>>,
        now: int,
    ) -> bool {
        exists|i: int|
            0 <= i < self.entries@.len() && !expired_on(#[trigger] self.entries@[i]@, now)
                && entry_matches(self.entries@[i]@, gate, crate_scope, path)
    }

    /// Whether an entry still applying on day `now` covers a finding of
    /// `gate` in crate `crate_scope` at `path`.
    pub fn covers(
        &self,
        gate: GateId,
        crate_scope: Option<&CrateName>,
        path: Option<&str>,
        now: i32,
    ) -> (r: bool)
        requires
            self.regexes_ok(),
        ensures
            r == self.covering(
                gate,
                match crate_scope {
                    Some(c) => Some(c@),
                    None => None,
                },
                opt_str(path),
                now as int,
            ),
    {
        let ghost cs = match crate_scope {
            Some(c) => Some(c@),
            None => None,
        };
        let mut i: usize = 0;
        while i < self.entries.len()
            invariant
                i <= self.entries@.len(),
                self.regexes_ok(),
                cs == match crate_scope {
                    Some(c) => Some(c@),
                    None => None::<Seq<char>>,
                },
                forall|j: int|
                    0 <= j < i ==> !(!expired_on(#[trigger] self.entries@[j]@, now as int)
                        && entry_matches(self.entries@[j]@, gate, cs, opt_str(path))),
            decreases self.entries.len() - i,
        {
            let e = &self.entries[i];
            assert(regex_ok(self.entries@[i as int]@));
            if !e.is_expired(now) && e.matches(gate, crate_scope, path) {
                return true;
            }
            i = i + 1;
        }
        false
    }
}

/// Every entry is active or expired on a given day, never both: the two
/// lists together are as long as the file.
pub proof fn lemma_active_expired_partition(es: Seq<EntryView>, now: int)
    ensures
        unexpired(es, now).len() + expired_ones(es, now).len() == es.len(),
    decreases es.len(),
{
    if es.len() > 0 {
        lemma_active_expired_partition(es.drop_last(), now);
    }
}

/// An entry only ever covers findings of its own gate.
pub proof fn lemma_matches_only_own_gate(
    e: EntryView,
    gate: GateId,
    crate_scope: Option<Seq<char>>,
    path: Option<Seq<char>>,
)
    requires
        entry_matches(e, gate, crate_scope, path),
    ensures
        gate == e.gate,
{
}

/// A validated entry's expiry is strictly after its opening, and its gate
/// is not `DebugRemove`.
pub proof fn lemma_validated_shape(e: EntryView)
    requires
        validated(e),
    ensures
        e.expires_after > e.opened,
        e.gate != GateId::DebugRemove,
{
}

/// Equality of two optional strings by their characters.
fn opt_string_eq(a: &Option<String>, b: &Option<String>) -> (r: bool)
    ensures
        r == (opt_chars(*a) == opt_chars(*b)),
{
    match (a, b) {
        (Some(x), Some(y)) => str_eq(x.as_str(), y.as_str()),
        (None, None) => true,
        _ => false,
    }
}

impl PartialEq for RatchetEntry {
    /// Equality over the fields as written; the validation caches are
    /// derived state and take no part.
    fn eq(&self, other: &Self) -> (r: bool) {
        self.gate == other.gate && opt_string_eq(&self.crate_scope, &other.crate_scope)
            && opt_string_eq(&self.file, &other.file) && str_eq(
            self.reason.as_str(),
            other.reason.as_str(),
        ) && str_eq(self.signed_by.as_str(), other.signed_by.as_str()) && self.opened
            == other.opened && self.expires_after == other.expires_after
    }
}

impl PartialEqSpecImpl for RatchetEntry {
    open spec fn obeys_eq_spec() -> bool {
        true
    }

    open spec fn eq_spec(&self, other: &Self) -> bool {
        same_source(self@, other@)
    }
}

impl Eq for RatchetEntry {

}

/// Validation is idempotent: validating a file a second time gives the
/// same verdict, keeps every entry's source, and reports the same entry
/// and rule when it fails.
pub proof fn lemma_validate_idempotent(
    a: Seq<EntryView>,
    b: Seq<EntryView>,
    c: Seq<EntryView>,
    r1: Result<(), RatchetError>,
    r2: Result<(), RatchetError>,
)
    requires
        file_validation(a, b, r1),
        file_validation(b, c, r2),
    ensures
        r1 is Ok <==> r2 is Ok,
        c.len() == a.len(),
        forall|i: int| 0 <= i < a.len() ==> same_source(#[trigger] a[i], c[i]),
        r1 matches Err(e1) ==> (r2 matches Err(e2) && e2.entry_fault() == e1.entry_fault()),
{
    assert forall|i: int| 0 <= i < a.len() implies entry_fault_of(#[trigger] a[i]) == entry_fault_of(b[i]) by {
        assert(same_source(a[i], b[i]));
    }
    assert forall|i: int| 0 <= i < a.len() implies same_source(#[trigger] a[i], c[i]) by {
        assert(same_source(a[i], b[i]));
        assert(same_source(b[i], c[i]));
    }
    if r1 is Ok {
        assert forall|i: int| 0 <= i < b.len() implies entry_fault_of(#[trigger] b[i]) is None by {
            assert(entry_fault_of(a[i]) is None);
        }
    } else {
        let i1 = choose|i: int|
            first_fault(a, i) && r1->Err_0.entry_fault() == Some((entry_fault_of(a[i])->0, i));
        assert(entry_fault_of(b[i1]) is Some);
        let i2 = choose|i: int|
            first_fault(b, i) && r2->Err_0.entry_fault() == Some((entry_fault_of(b[i])->0, i));
        if i2 < i1 {
            assert(entry_fault_of(a[i2]) is None);
        }
        if i1 < i2 {
            assert(entry_fault_of(b[i1]) is None);
        }
        assert(i1 == i2);
    }
}

} // verus!
