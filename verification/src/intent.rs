//! `.avp-intent.toml` — the per-branch coordination manifest: the agent
//! identity, its validation rules and the overlap queries between intents.
//!
//! Reading the file and parsing TOML happen outside this module; here an
//! intent is a plain value whose instants are UNIX nanoseconds (UTC) and
//! whose dates are Julian day numbers.

use vstd::prelude::*;

use crate::glob::{
    any_glob_matches, glob_match, glob_parse, glob_set_builds, glob_set_check, glob_set_is_match,
    glob_valid,
};
use crate::host::has_ws;
use crate::newtype::{NewtypeError, NewtypeErrorKind, char_is_ascii_graphic, is_ascii_graphic};
use vstd::std_specs::cmp::PartialEqSpecImpl;
use crate::text::{
    str_eq, chars_eq, chars_of, contains, contains_exec, ends_with, has_prefix, has_suffix, is_blank,
    is_ws, starts_with, trim, char_is_ws,
};

verus! {

// ─────────────────────────────────────────────────────────────────────────
// AgentId
// ─────────────────────────────────────────────────────────────────────────

/// Length limit of an agent id, in UTF-8 bytes.
pub const AGENT_ID_MAX_BYTES: usize = 128;

/// Shape of a valid agent id: non-empty, at most 128 UTF-8 bytes, all
/// characters ASCII-graphic (so no whitespace).
pub open spec fn valid_agent_id(s: Seq<char>) -> bool {
    &&& s.len() > 0
    &&& utf8_len(s) <= 128
    &&& forall|i: int| 0 <= i < s.len() ==> is_ascii_graphic(#[trigger] s[i])
}

/// The error `AgentId::new` reports for an invalid id.
pub open spec fn agent_id_error(s: Seq<char>) -> NewtypeErrorKind {
    if s.len() == 0 {
        NewtypeErrorKind::AgentIdEmpty
    } else if utf8_len(s) > 128 {
        NewtypeErrorKind::AgentIdTooLong
    } else {
        NewtypeErrorKind::AgentIdShape
    }
}

/// Bytes in the UTF-8 encoding of `c`.
pub open spec fn utf8_width(c: char) -> nat {
    if (c as u32) < 0x80 {
        1
    } else if (c as u32) < 0x800 {
        2
    } else if (c as u32) < 0x10000 {
        3
    } else {
        4
    }
}

/// Bytes in the UTF-8 encoding of `s` (what `str::len` returns).
pub open spec fn utf8_len(s: Seq<char>) -> nat
    decreases s.len(),
{
    if s.len() == 0 {
        0
    } else {
        utf8_len(s.drop_last()) + utf8_width(s.last())
    }
}

/// A prefix never encodes to more bytes than the whole.
proof fn lemma_utf8_len_prefix(s: Seq<char>, i: int)
    requires
        0 <= i <= s.len(),
    ensures
        utf8_len(s.take(i)) <= utf8_len(s),
    decreases s.len(),
{
    if i < s.len() {
        lemma_utf8_len_prefix(s.drop_last(), i);
        assert(s.drop_last().take(i) =~= s.take(i));
    } else {
        assert(s.take(i) =~= s);
    }
}

/// Whether `v` encodes to more than `limit` UTF-8 bytes.
fn utf8_len_exceeds(v: &[char], limit: usize) -> (r: bool)
    ensures
        r == (utf8_len(v@) > limit),
{
    let mut total: usize = 0;
    let mut i: usize = 0;
    while i < v.len()
        invariant
            i <= v@.len(),
            total == utf8_len(v@.take(i as int)),
            total <= limit,
        decreases v.len() - i,
    {
        let c = v[i];
        let w: usize = if (c as u32) < 0x80 {
            1
        } else if (c as u32) < 0x800 {
            2
        } else if (c as u32) < 0x10000 {
            3
        } else {
            4
        };
        assert(v@.take(i + 1).drop_last() =~= v@.take(i as int));
        if w > limit - total {
            proof {
                lemma_utf8_len_prefix(v@, i + 1);
            }
            return true;
        }
        total = total + w;
        i = i + 1;
    }
    assert(v@.take(v@.len() as int) =~= v@);
    false
}

/// Unique identifier for one parallel work unit (e.g.
/// `agent-2026-05-01-T01`). Only the shape is enforced.
#[derive(Debug, Clone, PartialEq, Eq, Hash)]
pub struct AgentId(String);

impl View for AgentId {
    type V = Seq<char>;

    closed spec fn view(&self) -> Seq<char> {
        self.0@
    }
}

impl AgentId {
    /// Construct, validating shape: empty first, then the byte-length
    /// cap, then the character class.
    pub fn new(s: &str) -> (r: Result<Self, NewtypeError>)
        ensures
            r is Ok <==> valid_agent_id(s@),
            r matches Ok(a) ==> a@ == s@,
            r matches Err(e) ==> e.kind() == agent_id_error(s@) && e.payload() == (if s@.len()
                == 0 {
                Seq::empty()
            } else {
                s@
            }),
    {
        let v = chars_of(s);
        if v.len() == 0 {
            return Err(NewtypeError::AgentIdEmpty);
        }
        if utf8_len_exceeds(v.as_slice(), AGENT_ID_MAX_BYTES) {
            return Err(NewtypeError::AgentIdTooLong(s.to_string()));
        }
        let mut i: usize = 0;
        while i < v.len()
            invariant
                i <= v@.len(),
                v@ == s@,
                v@.len() > 0,
                utf8_len(s@) <= 128,
                forall|j: int| 0 <= j < i ==> is_ascii_graphic(#[trigger] v@[j]),
            decreases v.len() - i,
        {
            let c = v[i];
            if char_is_ws(c) || !char_is_ascii_graphic(c) {
                return Err(NewtypeError::AgentIdShape(s.to_string()));
            }
            i = i + 1;
        }
        Ok(AgentId(s.to_string()))
    }

    /// Borrowed view of the id.
    pub fn as_str(&self) -> (r: &str)
        ensures
            r@ == self@,
    {
        self.0.as_str()
    }

    /// The id as an owned `String` (what `Display` writes).
    pub fn to_string(&self) -> (r: String)
        ensures
            r@ == self@,
    {
        self.0.clone()
    }

    /// A copy of this id.
    pub fn duplicate(&self) -> (r: Self)
        ensures
            r@ == self@,
    {
        AgentId(self.0.clone())
    }
}

impl std::str::FromStr for AgentId {
    type Err = NewtypeError;

    fn from_str(s: &str) -> (r: Result<Self, Self::Err>)
        ensures
            r is Ok <==> valid_agent_id(s@),
            r matches Ok(a) ==> a@ == s@,
            r matches Err(e) ==> e.kind() == agent_id_error(s@) && e.payload() == (if s@.len()
                == 0 {
                Seq::empty()
            } else {
                s@
            }),
    {
        Self::new(s)
    }
}

// ─────────────────────────────────────────────────────────────────────────
// IntentFile
// ─────────────────────────────────────────────────────────────────────────

/// Nanoseconds in one day.
pub const NANOS_PER_DAY: i128 = 86_400_000_000_000;

/// Julian day number of 1970-01-01.
pub const UNIX_EPOCH_JULIAN_DAY: i128 = 2_440_588;

/// The Julian day number of the UTC date of an instant given in UNIX
/// nanoseconds.
pub open spec fn utc_julian_day(nanos: int) -> int {
    nanos / (NANOS_PER_DAY as int) + UNIX_EPOCH_JULIAN_DAY
}

/// The Julian day number of the UTC date of an instant.
pub fn utc_julian_day_exec(nanos: i128) -> (d: i128)
    ensures
        d == utc_julian_day(nanos as int),
{
    let q: i128 = if nanos >= 0 {
        let q0 = nanos / NANOS_PER_DAY;
        assert(q0 as int == (nanos as int) / 86_400_000_000_000int);
        q0
    } else {
        let m: i128 = -(nanos + 1);
        let k: i128 = m / NANOS_PER_DAY;
        assert(k as int == (m as int) / 86_400_000_000_000int);
        assert((nanos as int) / 86_400_000_000_000int == -(k as int) - 1);
        -k - 1
    };
    q + UNIX_EPOCH_JULIAN_DAY
}

/// Views of a vector of strings.
pub open spec fn views(v: Seq<String>) -> Seq<Seq<char>> {
    v.map_values(|s: String| s@)
}

/// The declared patterns of `theirs` that also occur in `mine`, in the
/// order of `theirs`.
pub open spec fn shared_patterns(mine: Seq<Seq<char>>, theirs: Seq<Seq<char>>) -> Seq<Seq<char>>
    decreases theirs.len(),
{
    if theirs.len() == 0 {
        Seq::empty()
    } else {
        let rest = shared_patterns(mine, theirs.drop_last());
        if mine.contains(theirs.last()) {
            rest.push(theirs.last())
        } else {
            rest
        }
    }
}

/// The compiled glob set of a validated intent: the patterns it was
/// built from, each of which `globset` accepts, and of which it builds a
/// `GlobSet`.
#[derive(Debug)]
pub struct CompiledGlobs {
    patterns: Vec<String>,
}

impl CompiledGlobs {
    /// Every pattern is a valid glob.
    #[verifier::type_invariant]
    pub closed spec fn inv(self) -> bool {
        &&& forall|i: int| 0 <= i < self.patterns@.len() ==> glob_valid(#[trigger] self.patterns@[i]@)
        &&& glob_set_builds(views(self.patterns@))
    }

    /// The patterns the set was built from.
    pub closed spec fn patterns_view(self) -> Seq<Seq<char>> {
        views(self.patterns@)
    }

    /// Whether any pattern of the set matches `path`.
    pub open spec fn matches(self, path: Seq<char>) -> bool {
        any_glob_matches(self.patterns_view(), path)
    }

    /// A copy of the set.
    pub fn duplicate(&self) -> (r: Self)
        ensures
            r.patterns_view() == self.patterns_view(),
    {
        proof {
            use_type_invariant(self);
        }
        let v = clone_strings(&self.patterns);
        assert(views(v@) =~= views(self.patterns@));
        assert forall|i: int| 0 <= i < v@.len() implies glob_valid(#[trigger] v@[i]@) by {
            assert(v@[i]@ == self.patterns@[i]@);
        }
        CompiledGlobs { patterns: v }
    }

    /// `GlobSet::is_match`: true when any glob of the set matches.
    pub fn is_match(&self, path: &str) -> (r: bool)
        ensures
            r == self.matches(path@),
    {
        proof {
            use_type_invariant(self);
        }
        assert(views(self.patterns@) =~= crate::text::string_views(self.patterns@));
        glob_set_is_match(self.patterns.as_slice(), path)
    }
}

/// Which validation rule an intent breaks.
#[derive(Debug)]
#[non_exhaustive]
pub enum IntentError {
    /// Required field is empty (after trimming whitespace).
    EmptyField {
        /// The field name.
        field: &'static str,
    },
    /// Branch ref shape rejected.
    InvalidBranch(String),
    /// `expires_after` not strictly after the UTC date of `opened_at`.
    ExpiryBeforeOpen {
        /// Open date (Julian day).
        opened: i128,
        /// Expiry date (Julian day).
        expires: i32,
    },
    /// A declared file pattern is not a valid glob, or (with the pattern
    /// `(globset build)`) the set of all of them does not build.
    Glob {
        /// Offending pattern.
        pattern: String,
        /// What `globset` reported.
        source: globset::Error,
    },
}

/// A branch refname is rejected with whitespace, a leading or trailing
/// slash, or `..` anywhere.
pub open spec fn branch_bad(b: Seq<char>) -> bool {
    has_ws(b) || has_prefix(b, "/"@) || has_suffix(b, "/"@) || contains(b, ".."@)
}

/// Top-level form of `.avp-intent.toml`.
#[derive(Debug, Clone)]
#[non_exhaustive]
pub struct IntentFile {
    /// Unique identifier for this work unit.
    pub agent_id: AgentId,
    /// Git branch this intent governs.
    pub branch: String,
    /// One-sentence goal.
    pub goal: String,
    /// Runnable command that returns 0 iff the goal is achieved.
    pub success_test: String,
    /// When the intent was opened, as UNIX nanoseconds (UTC).
    pub opened_at: i128,
    /// Declared file scope: glob patterns over repo-relative paths.
    pub declared_files: Vec<String>,
    /// Other agent ids whose overlap is intentional.
    pub allows_overlap_with: Vec<AgentId>,
    /// Optional GitHub PR reference.
    pub expected_pr: Option<String>,
    /// Optional auto-archive date (Julian day).
    pub expires_after: Option<i32>,
    /// Compiled glob set, filled in by `validate`.
    pub compiled_globs: Option<CompiledGlobs>,
}

impl IntentFile {
    /// An unvalidated intent from its fields (no compiled globs yet).
    pub fn from_parts(
        agent_id: AgentId,
        branch: String,
        goal: String,
        success_test: String,
        opened_at: i128,
        declared_files: Vec<String>,
        allows_overlap_with: Vec<AgentId>,
        expected_pr: Option<String>,
        expires_after: Option<i32>,
    ) -> (r: Self)
        ensures
            r.agent_id == agent_id,
            r.branch == branch,
            r.goal == goal,
            r.success_test == success_test,
            r.opened_at == opened_at,
            r.declared_files == declared_files,
            r.allows_overlap_with == allows_overlap_with,
            r.expected_pr == expected_pr,
            r.expires_after == expires_after,
            r.compiled() is None,
    {
        IntentFile {
            agent_id,
            branch,
            goal,
            success_test,
            opened_at,
            declared_files,
            allows_overlap_with,
            expected_pr,
            expires_after,
            compiled_globs: None,
        }
    }

    /// The compiled glob set, if `validate` has run.
    pub open spec fn compiled(self) -> Option<CompiledGlobs> {
        self.compiled_globs
    }

    /// UTC date of `opened_at`, as a Julian day.
    pub open spec fn opened_day(self) -> int {
        utc_julian_day(self.opened_at as int)
    }

    /// Every text field check and the expiry check pass.
    pub open spec fn fields_ok(self) -> bool {
        &&& trim(self.branch@).len() > 0
        &&& trim(self.goal@).len() > 0
        &&& trim(self.success_test@).len() > 0
        &&& !branch_bad(self.branch@)
        &&& (self.expires_after matches Some(e) ==> e > self.opened_day())
    }

    /// `i` is the first declared pattern that is not a valid glob.
    pub open spec fn first_bad_glob(self, i: int) -> bool {
        &&& 0 <= i < self.declared_files@.len()
        &&& !glob_valid(self.declared_files@[i]@)
        &&& forall|j: int| 0 <= j < i ==> glob_valid(#[trigger] self.declared_files@[j]@)
    }

    /// The intent passes every check: its fields, each pattern, and the
    /// glob set built from all of them.
    pub open spec fn valid(self) -> bool {
        &&& self.fields_ok()
        &&& forall|i: int|
            0 <= i < self.declared_files@.len() ==> glob_valid(#[trigger] self.declared_files@[i]@)
        &&& glob_set_builds(views(self.declared_files@))
    }

    /// `e` is the error `validate` reports: the first rule broken, in the
    /// order empty branch, empty goal, empty success test, branch shape,
    /// expiry, globs.
    pub open spec fn reports(self, e: IntentError) -> bool {
        match e {
            IntentError::EmptyField { field } => if trim(self.branch@).len() == 0 {
                field@ == "branch"@
            } else if trim(self.goal@).len() == 0 {
                field@ == "goal"@
            } else {
                trim(self.success_test@).len() == 0 && field@ == "success_test"@
            },
            IntentError::InvalidBranch(b) => {
                &&& trim(self.branch@).len() > 0
                &&& trim(self.goal@).len() > 0
                &&& trim(self.success_test@).len() > 0
                &&& branch_bad(self.branch@)
                &&& b@ == self.branch@
            },
            IntentError::ExpiryBeforeOpen { opened, expires } => {
                &&& trim(self.branch@).len() > 0
                &&& trim(self.goal@).len() > 0
                &&& trim(self.success_test@).len() > 0
                &&& !branch_bad(self.branch@)
                &&& self.expires_after == Some(expires)
                &&& expires <= self.opened_day()
                &&& opened == self.opened_day()
            },
            IntentError::Glob { pattern, .. } => self.fields_ok() && ((exists|i: int|
                self.first_bad_glob(i) && pattern@ == #[trigger] self.declared_files@[i]@) || (
            (forall|i: int|
                0 <= i < self.declared_files@.len() ==> glob_valid(
                    #[trigger] self.declared_files@[i]@,
                )) && !glob_set_builds(views(self.declared_files@)) && pattern@
                == "(globset build)"@)),
        }
    }

    /// The same intent with its compiled globs replaced.
    pub open spec fn same_fields(self, other: Self) -> bool {
        &&& self.agent_id == other.agent_id
        &&& self.branch == other.branch
        &&& self.goal == other.goal
        &&& self.success_test == other.success_test
        &&& self.opened_at == other.opened_at
        &&& self.declared_files == other.declared_files
        &&& self.allows_overlap_with == other.allows_overlap_with
        &&& self.expected_pr == other.expected_pr
        &&& self.expires_after == other.expires_after
    }

    /// What a validation of `before` makes of it: `after` has the same
    /// fields; on success (exactly when `before` is valid) its compiled
    /// set holds the declared patterns, on failure `r` reports the first
    /// rule broken and the compiled set is left as it was.
    pub open spec fn validation(before: Self, after: Self, r: Result<(), IntentError>) -> bool {
        &&& after.same_fields(before)
        &&& (r is Ok <==> before.valid())
        &&& (r matches Err(e) ==> before.reports(e) && after.compiled() == before.compiled())
        &&& (r is Ok ==> (after.compiled() matches Some(c) && c.patterns_view() == views(
            before.declared_files@,
        )))
    }

    /// Run every validity check and compile the glob set. On success the
    /// compiled set holds exactly the declared patterns; on failure the
    /// first rule broken is reported. Idempotent; no user field changes.
    pub fn validate(&mut self) -> (r: Result<(), IntentError>)
        ensures
            Self::validation(*old(self), *final(self), r),
    {
        let b = chars_of(self.branch.as_str());
        if is_blank(b.as_slice()) {
            return Err(IntentError::EmptyField { field: "branch" });
        }
        let g = chars_of(self.goal.as_str());
        if is_blank(g.as_slice()) {
            return Err(IntentError::EmptyField { field: "goal" });
        }
        let t = chars_of(self.success_test.as_str());
        if is_blank(t.as_slice()) {
            return Err(IntentError::EmptyField { field: "success_test" });
        }
        let slash = chars_of("/");
        let dots = chars_of("..");
        if has_ws_exec(b.as_slice()) || starts_with(b.as_slice(), slash.as_slice()) || ends_with(
            b.as_slice(),
            slash.as_slice(),
        ) || contains_exec(b.as_slice(), dots.as_slice()) {
            return Err(IntentError::InvalidBranch(self.branch.clone()));
        }
        if let Some(expires) = self.expires_after {
            let opened_day = utc_julian_day_exec(self.opened_at);
            if (expires as i128) <= opened_day {
                return Err(IntentError::ExpiryBeforeOpen { opened: opened_day, expires });
            }
        }
        let mut compiled: Vec<String> = Vec::new();
        let mut i: usize = 0;
        while i < self.declared_files.len()
            invariant
                i <= self.declared_files@.len(),
                self.fields_ok(),
                compiled@.len() == i,
                forall|j: int| 0 <= j < i ==> glob_valid(#[trigger] self.declared_files@[j]@),
                forall|j: int| 0 <= j < i ==> #[trigger] compiled@[j]@ == self.declared_files@[j]@,
            decreases self.declared_files.len() - i,
        {
            let pat = &self.declared_files[i];
            match glob_parse(pat.as_str()) {
                Ok(()) => {},
                Err(source) => {
                    assert(self.first_bad_glob(i as int));
                    return Err(IntentError::Glob { pattern: pat.clone(), source });
                },
            }
            compiled.push(pat.clone());
            i = i + 1;
        }
        assert(views(compiled@) =~= views(self.declared_files@));
        assert(views(compiled@) =~= crate::text::string_views(compiled@));
        match glob_set_check(compiled.as_slice()) {
            Ok(()) => {},
            Err(source) => {
                return Err(IntentError::Glob { pattern: "(globset build)".to_string(), source });
            },
        }
        let set = CompiledGlobs { patterns: compiled };
        assert(set.patterns_view() =~= views(self.declared_files@));
        self.compiled_globs = Some(set);
        Ok(())
    }

    /// True if a repo-relative path is matched by any compiled glob;
    /// false when `validate` hasn't run.
    pub fn matches_path(&self, repo_relative: &str) -> (r: bool)
        ensures
            r == (self.compiled() matches Some(c) && c.matches(repo_relative@)),
    {
        match &self.compiled_globs {
            Some(c) => c.is_match(repo_relative),
            None => false,
        }
    }

    /// True if `now` (a Julian day) is past `expires_after`; an intent
    /// without expiry never expires.
    pub fn is_expired(&self, now: i32) -> (r: bool)
        ensures
            r == (self.expires_after matches Some(e) && now > e),
    {
        match self.expires_after {
            Some(e) => now > e,
            None => false,
        }
    }

    /// Whether either intent lists the other's agent id as an allowed
    /// overlap.
    pub fn overlap_allowed_with(&self, other: &Self) -> (r: bool)
        ensures
            r == (agent_ids_contain(self.allows_overlap_with@, other.agent_id@)
                || agent_ids_contain(other.allows_overlap_with@, self.agent_id@)),
    {
        ids_contain(&self.allows_overlap_with, &other.agent_id) || ids_contain(
            &other.allows_overlap_with,
            &self.agent_id,
        )
    }

    /// The raw patterns of `other` that this intent also declares, in
    /// `other`'s order. Overlap is declared, not discovered.
    pub fn pattern_overlap(&self, other: &Self) -> (r: Vec<String>)
        ensures
            views(r@) == shared_patterns(views(self.declared_files@), views(other.declared_files@)),
            views(r@) == views(other.declared_files@).filter(
                |p: Seq<char>| views(self.declared_files@).contains(p),
            ),
    {
        let ghost mine = views(self.declared_files@);
        let ghost theirs = views(other.declared_files@);
        let mut out: Vec<String> = Vec::new();
        let mut i: usize = 0;
        while i < other.declared_files.len()
            invariant
                i <= other.declared_files@.len(),
                mine == views(self.declared_files@),
                theirs == views(other.declared_files@),
                views(out@) == shared_patterns(mine, theirs.take(i as int)),
            decreases other.declared_files.len() - i,
        {
            let f = &other.declared_files[i];
            assert(theirs.take(i + 1).drop_last() =~= theirs.take(i as int));
            assert(theirs.take(i + 1).last() == f@);
            if strings_contain(&self.declared_files, f.as_str()) {
                out.push(f.clone());
                assert(views(out@) =~= shared_patterns(mine, theirs.take(i as int)).push(f@));
            }
            i = i + 1;
        }
        assert(theirs.take(other.declared_files@.len() as int) =~= theirs);
        proof {
            lemma_overlap_is_filter(mine, theirs);
        }
        out
    }
}

/// Some id of `ids` equals `id`.
pub open spec fn agent_ids_contain(ids: Seq<AgentId>, id: Seq<char>) -> bool {
    exists|i: int| 0 <= i < ids.len() && #[trigger] ids[i]@ == id
}

/// Whether `ids` holds an id equal to `id`.
fn ids_contain(ids: &Vec<AgentId>, id: &AgentId) -> (r: bool)
    ensures
        r == agent_ids_contain(ids@, id@),
{
    let mut i: usize = 0;
    while i < ids.len()
        invariant
            i <= ids@.len(),
            forall|j: int| 0 <= j < i ==> #[trigger] ids@[j]@ != id@,
        decreases ids.len() - i,
    {
        let a = chars_of(ids[i].as_str());
        let b = chars_of(id.as_str());
        if chars_eq(a.as_slice(), b.as_slice()) {
            return true;
        }
        i = i + 1;
    }
    false
}

/// Whether `v` holds a string equal to `s`.
pub fn strings_contain(v: &Vec<String>, s: &str) -> (r: bool)
    ensures
        r == views(v@).contains(s@),
{
    let sv = chars_of(s);
    let mut i: usize = 0;
    while i < v.len()
        invariant
            i <= v@.len(),
            sv@ == s@,
            forall|j: int| 0 <= j < i ==> #[trigger] v@[j]@ != s@,
        decreases v.len() - i,
    {
        let a = chars_of(v[i].as_str());
        if chars_eq(a.as_slice(), sv.as_slice()) {
            assert(views(v@)[i as int] == s@);
            return true;
        }
        i = i + 1;
    }
    proof {
        if views(v@).contains(s@) {
            let k = choose|k: int| 0 <= k < views(v@).len() && views(v@)[k] == s@;
            assert(v@[k]@ == s@);
        }
    }
    false
}

impl Clone for CompiledGlobs {
    fn clone(&self) -> Self {
        self.duplicate()
    }
}

/// A copy of a vector of strings, element by element.
pub fn clone_strings(v: &Vec<String>) -> (r: Vec<String>)
    ensures
        r@.len() == v@.len(),
        forall|i: int| 0 <= i < v@.len() ==> #[trigger] r@[i]@ == v@[i]@,
        views(r@) == views(v@),
{
    let mut r: Vec<String> = Vec::new();
    let mut i: usize = 0;
    while i < v.len()
        invariant
            i <= v@.len(),
            r@.len() == i,
            forall|j: int| 0 <= j < i ==> #[trigger] r@[j]@ == v@[j]@,
        decreases v.len() - i,
    {
        r.push(v[i].clone());
        i = i + 1;
    }
    assert(views(r@) =~= views(v@));
    r
}

/// Whether some character of `s` is whitespace.
pub fn has_ws_exec(s: &[char]) -> (r: bool)
    ensures
        r == has_ws(s@),
{
    let mut i: usize = 0;
    while i < s.len()
        invariant
            i <= s@.len(),
            forall|j: int| 0 <= j < i ==> !is_ws(#[trigger] s@[j]),
        decreases s.len() - i,
    {
        if char_is_ws(s[i]) {
            return true;
        }
        i = i + 1;
    }
    false
}


/// The ids of a sequence of agent ids.
pub open spec fn agent_views(v: Seq<AgentId>) -> Seq<Seq<char>> {
    v.map_values(|a: AgentId| a@)
}

/// Element-wise equality of two string vectors by their characters.
fn strings_eq(a: &Vec<String>, b: &Vec<String>) -> (r: bool)
    ensures
        r == (views(a@) == views(b@)),
{
    if a.len() != b.len() {
        assert(views(a@).len() != views(b@).len());
        return false;
    }
    let mut i: usize = 0;
    while i < a.len()
        invariant
            i <= a@.len(),
            a@.len() == b@.len(),
            forall|j: int| 0 <= j < i ==> (#[trigger] a@[j])@ == b@[j]@,
        decreases a.len() - i,
    {
        if !str_eq(a[i].as_str(), b[i].as_str()) {
            assert(views(a@)[i as int] != views(b@)[i as int]);
            return false;
        }
        i = i + 1;
    }
    assert(views(a@) =~= views(b@));
    true
}

/// Element-wise equality of two agent-id vectors.
fn agent_ids_eq(a: &Vec<AgentId>, b: &Vec<AgentId>) -> (r: bool)
    ensures
        r == (agent_views(a@) == agent_views(b@)),
{
    if a.len() != b.len() {
        assert(agent_views(a@).len() != agent_views(b@).len());
        return false;
    }
    let mut i: usize = 0;
    while i < a.len()
        invariant
            i <= a@.len(),
            a@.len() == b@.len(),
            forall|j: int| 0 <= j < i ==> (#[trigger] a@[j])@ == b@[j]@,
        decreases a.len() - i,
    {
        if !str_eq(a[i].as_str(), b[i].as_str()) {
            assert(agent_views(a@)[i as int] != agent_views(b@)[i as int]);
            return false;
        }
        i = i + 1;
    }
    assert(agent_views(a@) =~= agent_views(b@));
    true
}

/// The characters of an optional string.
pub open spec fn opt_chars(o: Option<String>) -> Option<Seq<char>> {
    match o {
        Some(s) => Some(s@),
        None => None,
    }
}

/// Two intents agree on every field as written.
pub open spec fn same_intent(a: IntentFile, b: IntentFile) -> bool {
    &&& a.agent_id@ == b.agent_id@
    &&& a.branch@ == b.branch@
    &&& a.goal@ == b.goal@
    &&& a.success_test@ == b.success_test@
    &&& a.opened_at == b.opened_at
    &&& views(a.declared_files@) == views(b.declared_files@)
    &&& agent_views(a.allows_overlap_with@) == agent_views(b.allows_overlap_with@)
    &&& opt_chars(a.expected_pr) == opt_chars(b.expected_pr)
    &&& a.expires_after == b.expires_after
}

impl PartialEq for IntentFile {
    /// Equality over the fields as written; the compiled glob set is
    /// derived state and takes no part.
    fn eq(&self, other: &Self) -> (r: bool) {
        let pr = match (&self.expected_pr, &other.expected_pr) {
            (Some(x), Some(y)) => str_eq(x.as_str(), y.as_str()),
            (None, None) => true,
            _ => false,
        };
        str_eq(self.agent_id.as_str(), other.agent_id.as_str()) && str_eq(
            self.branch.as_str(),
            other.branch.as_str(),
        ) && str_eq(self.goal.as_str(), other.goal.as_str()) && str_eq(
            self.success_test.as_str(),
            other.success_test.as_str(),
        ) && self.opened_at == other.opened_at && strings_eq(
            &self.declared_files,
            &other.declared_files,
        ) && agent_ids_eq(&self.allows_overlap_with, &other.allows_overlap_with) && pr
            && self.expires_after == other.expires_after
    }
}

impl PartialEqSpecImpl for IntentFile {
    open spec fn obeys_eq_spec() -> bool {
        true
    }

    open spec fn eq_spec(&self, other: &Self) -> bool {
        same_intent(*self, *other)
    }
}

/// Validation is idempotent: validating an intent a second time gives
/// the same verdict, keeps the same fields, and leaves a compiled set of
/// the same patterns (or, on failure, the set as it was).
pub proof fn lemma_validate_idempotent(
    a: IntentFile,
    b: IntentFile,
    c: IntentFile,
    r1: Result<(), IntentError>,
    r2: Result<(), IntentError>,
)
    requires
        IntentFile::validation(a, b, r1),
        IntentFile::validation(b, c, r2),
    ensures
        r1 is Ok <==> r2 is Ok,
        c.same_fields(a),
        r2 is Ok ==> (c.compiled() matches Some(x) && x.patterns_view() == views(a.declared_files@)),
        r2 is Err ==> c.compiled() == a.compiled(),
{
}

/// The overlap of two intents keeps every pattern of the other intent
/// that this one also declares, and nothing else, in the other's order:
/// it is the other's patterns filtered by membership in this one's, so a
/// pattern occurs in it exactly when both intents declare it.
pub proof fn lemma_overlap_is_filter(mine: Seq<Seq<char>>, theirs: Seq<Seq<char>>)
    ensures
        shared_patterns(mine, theirs) == theirs.filter(|p: Seq<char>| mine.contains(p)),
        forall|p: Seq<char>|
            #![trigger shared_patterns(mine, theirs).contains(p)]
            shared_patterns(mine, theirs).contains(p) <==> (theirs.contains(p) && mine.contains(p)),
    decreases theirs.len(),
{
    reveal(Seq::filter);
    let f = |p: Seq<char>| mine.contains(p);
    if theirs.len() > 0 {
        let d = theirs.drop_last();
        lemma_overlap_is_filter(mine, d);
        let rest = shared_patterns(mine, d);
        assert forall|p: Seq<char>| shared_patterns(mine, theirs).contains(p) <==> (theirs.contains(p)
            && mine.contains(p)) by {
            if theirs.contains(p) && mine.contains(p) {
                let k = choose|k: int| 0 <= k < theirs.len() && theirs[k] == p;
                if k < d.len() {
                    assert(d[k] == p);
                    assert(rest.contains(p));
                    if mine.contains(theirs.last()) {
                        let j = choose|j: int| 0 <= j < rest.len() && rest[j] == p;
                        assert(rest.push(theirs.last())[j] == p);
                    }
                } else {
                    assert(theirs.last() == p);
                    assert(rest.push(theirs.last())[rest.len() as int] == p);
                }
            }
            if shared_patterns(mine, theirs).contains(p) {
                let j = choose|j: int|
                    0 <= j < shared_patterns(mine, theirs).len() && shared_patterns(mine, theirs)[j] == p;
                if j < rest.len() {
                    if mine.contains(theirs.last()) {
                        assert(rest.push(theirs.last())[j] == rest[j]);
                    }
                    assert(rest.contains(p));
                    let k = choose|k: int| 0 <= k < d.len() && d[k] == p;
                    assert(theirs[k] == p);
                } else {
                    assert(theirs[theirs.len() - 1] == p);
                }
            }
        }
    } else {
        assert forall|p: Seq<char>| shared_patterns(mine, theirs).contains(p) <==> (theirs.contains(p)
            && mine.contains(p)) by {
            if theirs.contains(p) {
                let k = choose|k: int| 0 <= k < theirs.len() && theirs[k] == p;
            }
        }
    }
}

} // verus!
