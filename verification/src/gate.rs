//! Gate identity and taxonomy, the `Gate` trait and the run context.
//!
//! Every check the toolchain runs is identified by a stable kebab-case
//! [`GateId`].

use vstd::prelude::*;

use crate::newtype::CrateName;
use crate::repo::RepoRoot;
use crate::text::{chars_eq, chars_of, debug_quote, debug_quoted, push_str};

verus! {

/// Stable kebab-case identifier for every gate the toolchain enforces.
#[derive(Debug, Copy, Clone, PartialEq, Eq, Hash, Structural)]
#[non_exhaustive]
pub enum GateId {
    /// Every public fn must carry a `BUG ASSUMPTION:` comment in the
    /// comment block directly above its signature.
    BugAssumption,
    /// Forbidden calls in library code (`unwrap`, `expect`, `panic!`,
    /// `todo!`, `unimplemented!`, `dbg!`, `println!`, `eprintln!`) unless
    /// the line carries a justification comment.
    ForbiddenCall,
    /// Any tracked file containing the debug-removal marker fails the
    /// build. Not ratchetable.
    DebugRemove,
    /// Every `unsafe` site must have a `// SAFETY:` proof comment within
    /// the preceding lines.
    UnsafeProof,
    /// Aggregate `tests / public_fns` ratio must meet a floor.
    TestDensityAggregate,
    /// Every individual public fn must have at least one paired test.
    TestDensityPerFn,
}

/// Number of defined gates.
pub const GATE_COUNT: usize = 6;

impl GateId {
    /// Every defined gate, in stable order.
    pub const ALL: [GateId; 6] = [
        GateId::BugAssumption,
        GateId::ForbiddenCall,
        GateId::DebugRemove,
        GateId::UnsafeProof,
        GateId::TestDensityAggregate,
        GateId::TestDensityPerFn,
    ];

    /// The stable kebab-case identifier of a gate.
    pub open spec fn kebab(self) -> Seq<char> {
        match self {
            GateId::BugAssumption => "bug-assumption"@,
            GateId::ForbiddenCall => "forbidden-call"@,
            GateId::DebugRemove => "debug-remove"@,
            GateId::UnsafeProof => "unsafe-proof"@,
            GateId::TestDensityAggregate => "test-density-aggregate"@,
            GateId::TestDensityPerFn => "test-density-per-fn"@,
        }
    }

    /// The gates, in the order of `ALL`.
    pub open spec fn all_seq() -> Seq<GateId> {
        seq![
            GateId::BugAssumption,
            GateId::ForbiddenCall,
            GateId::DebugRemove,
            GateId::UnsafeProof,
            GateId::TestDensityAggregate,
            GateId::TestDensityPerFn,
        ]
    }

    /// Whether a gate accepts ratchet overrides: every gate but
    /// `DebugRemove`.
    pub fn ratchetable(self) -> (r: bool)
        ensures
            r == (self != GateId::DebugRemove),
    {
        match self {
            GateId::DebugRemove => false,
            _ => true,
        }
    }

    /// The one-line description of a gate.
    pub open spec fn description_text(self) -> Seq<char> {
        match self {
            GateId::BugAssumption => "Public fns must have a `BUG ASSUMPTION:` annotation."@,
            GateId::ForbiddenCall => "Forbidden calls in library code (unwrap/expect/panic/dbg/println)."@,
            GateId::DebugRemove => "DEBUG-REMOVE markers must be stripped before merge."@,
            GateId::UnsafeProof => "Every `unsafe` site must have a `// SAFETY:` proof comment."@,
            GateId::TestDensityAggregate => "Aggregate (tests / public_fns) ratio \u{2265} threshold."@,
            GateId::TestDensityPerFn => "Every public fn has at least one paired test."@,
        }
    }

    /// One-line human description, used by `avp gate list` and
    /// `avp explain`; never empty.
    pub fn description(self) -> (r: &'static str)
        ensures
            r@ == self.description_text(),
            r@.len() > 0,
    {
        let r = match self {
            GateId::BugAssumption => "Public fns must have a `BUG ASSUMPTION:` annotation.",
            GateId::ForbiddenCall => "Forbidden calls in library code (unwrap/expect/panic/dbg/println).",
            GateId::DebugRemove => "DEBUG-REMOVE markers must be stripped before merge.",
            GateId::UnsafeProof => "Every `unsafe` site must have a `// SAFETY:` proof comment.",
            GateId::TestDensityAggregate => "Aggregate (tests / public_fns) ratio ≥ threshold.",
            GateId::TestDensityPerFn => "Every public fn has at least one paired test.",
        };
        proof {
            reveal_strlit("Public fns must have a `BUG ASSUMPTION:` annotation.");
            reveal_strlit("Forbidden calls in library code (unwrap/expect/panic/dbg/println).");
            reveal_strlit("DEBUG-REMOVE markers must be stripped before merge.");
            reveal_strlit("Every `unsafe` site must have a `// SAFETY:` proof comment.");
            reveal_strlit("Aggregate (tests / public_fns) ratio ≥ threshold.");
            reveal_strlit("Every public fn has at least one paired test.");
        }
        r
    }

    /// The stable kebab-case identifier — what TOML files and CI
    /// annotations write.
    pub fn as_kebab(self) -> (r: &'static str)
        ensures
            r@ == self.kebab(),
    {
        match self {
            GateId::BugAssumption => "bug-assumption",
            GateId::ForbiddenCall => "forbidden-call",
            GateId::DebugRemove => "debug-remove",
            GateId::UnsafeProof => "unsafe-proof",
            GateId::TestDensityAggregate => "test-density-aggregate",
            GateId::TestDensityPerFn => "test-density-per-fn",
        }
    }

    /// The kebab-case identifier as an owned `String` (what `Display`
    /// writes for a gate).
    pub fn to_string(&self) -> (r: String)
        ensures
            r@ == self.kebab(),
    {
        self.as_kebab().to_string()
    }

    /// Parse a kebab-case identifier: that gate whose `as_kebab` equals
    /// `s`, or `UnknownGate(s)` when there is none.
    pub fn parse_kebab(s: &str) -> (r: Result<GateId, UnknownGate>)
        ensures
            match r {
                Ok(g) => g.kebab() == s@,
                Err(e) => e.0@ == s@ && forall|g: GateId| g.kebab() != s@,
            },
    {
        let v = chars_of(s);
        let mut i: usize = 0;
        while i < GATE_COUNT
            invariant
                i <= GATE_COUNT,
                v@ == s@,
                forall|j: int| 0 <= j < i ==> Self::all_seq()[j].kebab() != s@,
            decreases GATE_COUNT - i,
        {
            let g = Self::ALL[i];
            assert(g == Self::all_seq()[i as int]);
            let k = chars_of(g.as_kebab());
            if chars_eq(k.as_slice(), v.as_slice()) {
                return Ok(g);
            }
            i = i + 1;
        }
        proof {
            assert forall|g: GateId| g.kebab() != s@ by {
                let j: int = match g {
                    GateId::BugAssumption => 0,
                    GateId::ForbiddenCall => 1,
                    GateId::DebugRemove => 2,
                    GateId::UnsafeProof => 3,
                    GateId::TestDensityAggregate => 4,
                    GateId::TestDensityPerFn => 5,
                };
                assert(Self::all_seq()[j] == g);
            }
        }
        Err(UnknownGate(s.to_string()))
    }
}

impl std::str::FromStr for GateId {
    type Err = UnknownGate;

    fn from_str(s: &str) -> (r: Result<Self, Self::Err>)
        ensures
            match r {
                Ok(g) => g.kebab() == s@,
                Err(e) => e.0@ == s@ && forall|g: GateId| g.kebab() != s@,
            },
    {
        Self::parse_kebab(s)
    }
}

/// Error returned when a gate name is unknown; holds the offending name.
#[derive(Debug, Clone, PartialEq, Eq)]
pub struct UnknownGate(pub String);

/// The known gate names as a debug-rendered list.
pub open spec fn known_gates_text() -> Seq<char> {
    "[\"bug-assumption\", \"forbidden-call\", \"debug-remove\", \"unsafe-proof\", \"test-density-aggregate\", \"test-density-per-fn\"]"@
}

impl UnknownGate {
    /// The error message, given the debug rendering of the offending name.
    pub fn message_with(quoted_name: &str) -> (r: String)
        ensures
            r@ == "unknown gate id: "@ + quoted_name@ + " (known: "@ + known_gates_text() + ")"@,
    {
        let mut s = String::new();
        push_str(&mut s, "unknown gate id: ");
        push_str(&mut s, quoted_name);
        push_str(&mut s, " (known: ");
        push_str(
            &mut s,
            "[\"bug-assumption\", \"forbidden-call\", \"debug-remove\", \"unsafe-proof\", \"test-density-aggregate\", \"test-density-per-fn\"]",
        );
        push_str(&mut s, ")");
        s
    }

    /// The error message: the offending name, quoted, and the known gates.
    pub fn to_string(&self) -> (r: String)
        ensures
            r@ == "unknown gate id: "@ + debug_quoted(self.0@) + " (known: "@ + known_gates_text() + ")"@,
    {
        let q = debug_quote(self.0.as_str());
        Self::message_with(q.as_str())
    }
}

// ─────────────────────────────────────────────────────────────────────────
// Gate trait + Context
// ─────────────────────────────────────────────────────────────────────────

/// Contextual input a gate run receives.
#[derive(Debug)]
#[non_exhaustive]
pub struct Context<'a> {
    /// Resolved repo root.
    pub repo: &'a RepoRoot,
    /// Optional restricted scope: only this crate's sources are inspected.
    pub crate_scope: Option<CrateName>,
    /// Whether gates are running in CI.
    pub in_ci: bool,
}

impl<'a> Context<'a> {
    /// A context over `repo`, with no crate scope.
    pub fn new(repo: &'a RepoRoot, in_ci: bool) -> (r: Self)
        ensures
            *r.repo == *repo,
            r.crate_scope is None,
            r.in_ci == in_ci,
    {
        Context { repo, crate_scope: None, in_ci }
    }

    /// Restrict the context to a single crate; other fields unchanged.
    pub fn with_crate(self, c: CrateName) -> (r: Self)
        ensures
            *r.repo == *self.repo,
            r.crate_scope == Some(c),
            r.in_ci == self.in_ci,
    {
        let mut me = self;
        me.crate_scope = Some(c);
        me
    }
}

/// A check identified by a [`GateId`]. The Rust gates of this crate
/// implement it; their `run_on` methods take pre-loaded sources.
pub trait Gate {
    /// Which gate this check is.
    spec fn gate_id(&self) -> GateId;

    /// Stable identity of this gate.
    fn id(&self) -> (g: GateId)
        ensures
            g == self.gate_id(),
    ;

    /// Human-friendly name for headers and status lines: a gate's
    /// kebab-case identifier.
    fn name(&self) -> (r: String)
        ensures
            r@ == self.gate_id().kebab(),
    {
        self.id().to_string()
    }
}

/// Every gate has an identifier of its own: two gates with one kebab-case
/// identifier are the same gate, so parsing a gate's identifier gives
/// that gate back.
pub proof fn lemma_kebab_injective(a: GateId, b: GateId)
    requires
        a.kebab() == b.kebab(),
    ensures
        a == b,
{
    reveal_strlit("bug-assumption");
    reveal_strlit("forbidden-call");
    reveal_strlit("debug-remove");
    reveal_strlit("unsafe-proof");
    reveal_strlit("test-density-aggregate");
    reveal_strlit("test-density-per-fn");
    assert("bug-assumption"@.len() == 14 && "bug-assumption"@[0] == 'b');
    assert("forbidden-call"@.len() == 14 && "forbidden-call"@[0] == 'f');
    assert("debug-remove"@.len() == 12 && "debug-remove"@[0] == 'd');
    assert("unsafe-proof"@.len() == 12 && "unsafe-proof"@[0] == 'u');
    assert("test-density-aggregate"@.len() == 22);
    assert("test-density-per-fn"@.len() == 19);
    assert(a.kebab().len() == b.kebab().len() && a.kebab()[0] == b.kebab()[0]);
}

} // verus!
