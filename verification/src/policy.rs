//! Pause taxonomy and recovery policy.
//!
//! Every agent-session pause falls into one of five named buckets; each has
//! a deterministic recovery action — never silent retry, never blanket
//! bypass.

use vstd::prelude::*;

verus! {

/// Nanoseconds in one second.
pub const NANOS_PER_SEC: u128 = 1_000_000_000;

/// The largest representable duration, in nanoseconds
/// (`u64::MAX` seconds plus 999 999 999 nanoseconds).
pub const MAX_NANOS: u128 = 18_446_744_073_709_551_615_999_999_999;

/// A span of time with nanosecond precision, bounded like
/// `std::time::Duration` (at most `u64::MAX` whole seconds).
#[derive(Debug, Copy, Clone, PartialEq, Eq, Structural)]
pub struct Duration {
    nanos: u128,
}

impl View for Duration {
    type V = nat;

    closed spec fn view(&self) -> nat {
        self.nanos as nat
    }
}

impl Duration {
    /// The bound every `Duration` keeps.
    #[verifier::type_invariant]
    closed spec fn wf(&self) -> bool {
        self.nanos <= MAX_NANOS
    }

    /// Spec constructor from nanoseconds.
    pub open spec fn nanos_of_secs(secs: nat) -> nat {
        secs * 1_000_000_000
    }

    /// `secs` whole seconds.
    pub fn from_secs(secs: u64) -> (d: Self)
        ensures
            d@ == Self::nanos_of_secs(secs as nat),
    {
        assert(secs as u128 * 1_000_000_000 <= MAX_NANOS) by (nonlinear_arith)
            requires
                secs <= 0xffff_ffff_ffff_ffffu64,
        ;
        Duration { nanos: (secs as u128) * NANOS_PER_SEC }
    }

    /// Total nanoseconds.
    pub fn as_nanos(&self) -> (n: u128)
        ensures
            n == self@,
            n <= MAX_NANOS,
    {
        proof {
            use_type_invariant(self);
        }
        self.nanos
    }

    /// Whole seconds, rounding down.
    pub fn as_secs(&self) -> (s: u64)
        ensures
            s == self@ / 1_000_000_000,
    {
        proof {
            use_type_invariant(self);
        }
        assert(self.nanos / 1_000_000_000 <= 0xffff_ffff_ffff_ffffu64) by (nonlinear_arith)
            requires
                self.nanos <= MAX_NANOS,
        ;
        (self.nanos / NANOS_PER_SEC) as u64
    }

    /// `self * rhs`, or the largest duration when that overflows.
    pub fn saturating_mul(self, rhs: u32) -> (d: Self)
        ensures
            d@ == if self@ * rhs <= MAX_NANOS { self@ * rhs } else { MAX_NANOS as int },
    {
        proof {
            use_type_invariant(&self);
        }
        assert(self.nanos * (rhs as u128) <= MAX_NANOS * 0xffff_ffffu128) by (nonlinear_arith)
            requires
                self.nanos <= MAX_NANOS,
                rhs <= 0xffff_ffffu32,
        ;
        let total: u128 = self.nanos * (rhs as u128);
        if total <= MAX_NANOS {
            Duration { nanos: total }
        } else {
            Duration { nanos: MAX_NANOS }
        }
    }

    /// The shorter of two durations.
    pub fn min(self, other: Self) -> (d: Self)
        ensures
            d@ == if self@ <= other@ { self@ } else { other@ },
    {
        if self.nanos <= other.nanos {
            self
        } else {
            other
        }
    }
}

/// Why a session paused.
#[derive(Debug, Copy, Clone, PartialEq, Eq, Hash, Structural)]
#[non_exhaustive]
pub enum PauseReason {
    /// The API rate-limited us. Recovery: exponential backoff.
    RateLimit,
    /// Network blip / DNS / TLS failure. Recovery: backoff.
    Network,
    /// Context window saturated; compaction ran. Recovery: continue.
    ContextCompaction,
    /// Permission prompt not on the allowlist. Recovery: escalate.
    Permission,
    /// Irrecoverable error. Recovery: escalate.
    Blocked,
}

impl PauseReason {
    /// The stable kebab-case label of a reason.
    pub open spec fn label_spec(self) -> Seq<char> {
        match self {
            PauseReason::RateLimit => "rate-limit"@,
            PauseReason::Network => "network"@,
            PauseReason::ContextCompaction => "context-compaction"@,
            PauseReason::Permission => "permission"@,
            PauseReason::Blocked => "blocked"@,
        }
    }

    /// Whether the reason is recovered from automatically.
    pub open spec fn recoverable(self) -> bool {
        self == PauseReason::RateLimit || self == PauseReason::Network || self
            == PauseReason::ContextCompaction
    }

    /// Stable kebab-case label for logs.
    pub fn label(self) -> (r: &'static str)
        ensures
            r@ == self.label_spec(),
    {
        match self {
            PauseReason::RateLimit => "rate-limit",
            PauseReason::Network => "network",
            PauseReason::ContextCompaction => "context-compaction",
            PauseReason::Permission => "permission",
            PauseReason::Blocked => "blocked",
        }
    }

    /// Whether the supervisor attempts automatic recovery (vs. escalating
    /// on first occurrence): rate limits, network errors and compaction.
    pub fn auto_recoverable(self) -> (r: bool)
        ensures
            r == self.recoverable(),
    {
        match self {
            PauseReason::RateLimit | PauseReason::Network | PauseReason::ContextCompaction => true,
            _ => false,
        }
    }
}

/// What the supervisor should do about a pause.
#[derive(Debug, Clone, Copy, PartialEq, Eq)]
#[non_exhaustive]
pub enum RecoveryAction {
    /// Wait `delay`, then resume the session.
    ResumeAfter {
        /// Duration to wait before resume.
        delay: Duration,
    },
    /// Escalate the session to a human.
    Escalate {
        /// Reason text for the escalation message.
        reason: &'static str,
    },
}

/// Escalation text once the resume budget is spent.
pub open spec fn max_resumes_text() -> Seq<char> {
    "max resumes exceeded; supervisor giving up"@
}

/// Escalation text for a reason that is never recovered automatically.
pub open spec fn escalation_text(reason: PauseReason) -> Seq<char> {
    match reason {
        PauseReason::Permission => "non-allowlisted permission prompt"@,
        PauseReason::Blocked => "irrecoverable blocked state"@,
        _ => "unhandled pause"@,
    }
}

/// `2^n`.
pub open spec fn pow2(n: nat) -> nat
    decreases n,
{
    if n == 0 {
        1
    } else {
        2 * pow2((n - 1) as nat)
    }
}

/// Policy governing recovery decisions.
#[derive(Debug, Clone, Copy, PartialEq, Structural)]
#[non_exhaustive]
pub struct RecoveryPolicy {
    /// Max automatic resumes before escalating, whatever the reason.
    pub max_resumes: u32,
    /// Initial backoff.
    pub base_backoff: Duration,
    /// Backoff cap.
    pub max_backoff: Duration,
}

impl Default for RecoveryPolicy {
    fn default() -> (p: Self)
        ensures
            p.max_resumes == 6,
            p.base_backoff@ == 15 * 1_000_000_000,
            p.max_backoff@ == 900 * 1_000_000_000,
    {
        RecoveryPolicy {
            max_resumes: 6,
            base_backoff: Duration::from_secs(15),
            max_backoff: Duration::from_secs(15 * 60),
        }
    }
}

impl RecoveryPolicy {
    /// A policy from its parts.
    pub fn new(max_resumes: u32, base_backoff: Duration, max_backoff: Duration) -> (p: Self)
        ensures
            p.max_resumes == max_resumes,
            p.base_backoff == base_backoff,
            p.max_backoff == max_backoff,
    {
        RecoveryPolicy { max_resumes, base_backoff, max_backoff }
    }

    /// The exponential backoff before the resume after `resume_count`
    /// earlier ones: `base * 2^min(resume_count, 31)`, saturating, capped at
    /// `max_backoff`.
    pub open spec fn backoff(self, resume_count: u32) -> nat {
        let e: nat = if resume_count <= 31 { resume_count as nat } else { 31 };
        let raw = self.base_backoff@ * pow2(e);
        let sat = if raw <= MAX_NANOS { raw } else { MAX_NANOS as nat };
        if sat <= self.max_backoff@ { sat } else { self.max_backoff@ }
    }

    /// How many automatic resumes a pause for `reason` gets: half the
    /// budget (rounded down) for a network blip, the whole budget for
    /// anything else.
    pub open spec fn resume_budget(self, reason: PauseReason) -> u32 {
        match reason {
            PauseReason::Network => self.max_resumes / 2,
            _ => self.max_resumes,
        }
    }

    /// The wait before resuming after a pause for `reason` that follows
    /// `resume_count` resumes: a short, constant backoff for a network
    /// blip (the base, capped), the exponential backoff otherwise.
    pub open spec fn delay_for(self, reason: PauseReason, resume_count: u32) -> nat {
        match reason {
            PauseReason::Network => self.backoff(0),
            _ => self.backoff(resume_count),
        }
    }

    /// The decision `decide` makes.
    pub open spec fn decision(self, reason: PauseReason, resume_count: u32, a: RecoveryAction) -> bool {
        if resume_count >= self.resume_budget(reason) {
            a matches RecoveryAction::Escalate { reason: t } && t@ == max_resumes_text()
        } else if !reason.recoverable() {
            a matches RecoveryAction::Escalate { reason: t } && t@ == escalation_text(reason)
        } else {
            a matches RecoveryAction::ResumeAfter { delay } && delay@ == self.delay_for(
                reason,
                resume_count,
            )
        }
    }

    /// Decide what to do given a pause and how many times this session
    /// has already been resumed: escalate once the reason's resume budget
    /// is spent or for reasons never auto-recovered; otherwise resume
    /// after a backoff (exponential, or short and constant for a network
    /// blip).
    pub fn decide(self, reason: PauseReason, resume_count: u32) -> (a: RecoveryAction)
        ensures
            self.decision(reason, resume_count, a),
    {
        let budget = match reason {
            PauseReason::Network => self.max_resumes / 2,
            _ => self.max_resumes,
        };
        if resume_count >= budget {
            return RecoveryAction::Escalate { reason: "max resumes exceeded; supervisor giving up" };
        }
        if !reason.auto_recoverable() {
            let text = match reason {
                PauseReason::Permission => "non-allowlisted permission prompt",
                PauseReason::Blocked => "irrecoverable blocked state",
                _ => "unhandled pause",
            };
            return RecoveryAction::Escalate { reason: text };
        }
        let count: u32 = match reason {
            PauseReason::Network => 0,
            _ => resume_count,
        };
        let e: u32 = if count <= 31 { count } else { 31 };
        let mut factor: u32 = 1;
        let mut i: u32 = 0;
        while i < e
            invariant
                i <= e <= 31,
                factor == pow2(i as nat),
                factor <= 0x8000_0000,
            decreases e - i,
        {
            proof {
                lemma_pow2_bound(i as nat);
            }
            factor = factor * 2;
            i = i + 1;
        }
        let raw = self.base_backoff.saturating_mul(factor);
        let delay = raw.min(self.max_backoff);
        RecoveryAction::ResumeAfter { delay }
    }
}

/// `2^m <= 2^n` for `m <= n`.
proof fn lemma_pow2_mono(m: nat, n: nat)
    requires
        m <= n,
    ensures
        pow2(m) <= pow2(n),
    decreases n,
{
    if m < n {
        lemma_pow2_mono(m, (n - 1) as nat);
    }
}

/// `2^n <= 2^30` for `n < 31`.
proof fn lemma_pow2_bound(n: nat)
    requires
        n < 31,
    ensures
        pow2(n) <= 0x4000_0000,
{
    lemma_pow2_mono(n, 30);
    reveal_with_fuel(pow2, 31);
}

/// The backoff never exceeds the policy's cap.
pub proof fn lemma_backoff_capped(policy: RecoveryPolicy, resume_count: u32)
    ensures
        policy.backoff(resume_count) <= policy.max_backoff@,
{
}

/// The backoff never shrinks as the resume count grows.
pub proof fn lemma_backoff_monotone(policy: RecoveryPolicy, r1: u32, r2: u32)
    requires
        r1 <= r2,
    ensures
        policy.backoff(r1) <= policy.backoff(r2),
{
    let e1: nat = if r1 <= 31 { r1 as nat } else { 31 };
    let e2: nat = if r2 <= 31 { r2 as nat } else { 31 };
    lemma_pow2_mono(e1, e2);
    assert(policy.base_backoff@ * pow2(e1) <= policy.base_backoff@ * pow2(e2)) by (nonlinear_arith)
        requires
            pow2(e1) <= pow2(e2),
    ;
}

/// Below the cap, each further resume doubles the backoff.
pub proof fn lemma_backoff_doubles(policy: RecoveryPolicy, resume_count: u32)
    requires
        resume_count < 31,
        policy.base_backoff@ * pow2((resume_count + 1) as nat) <= policy.max_backoff@,
        policy.max_backoff@ <= MAX_NANOS,
    ensures
        policy.backoff((resume_count + 1) as u32) == 2 * policy.backoff(resume_count),
{
    let n = resume_count as nat;
    assert(pow2(n + 1) == 2 * pow2(n));
    assert(policy.base_backoff@ * pow2(n + 1) == 2 * (policy.base_backoff@ * pow2(n))) by (nonlinear_arith)
        requires
            pow2(n + 1) == 2 * pow2(n),
    ;
    lemma_pow2_mono(n, n + 1);
    assert(policy.base_backoff@ * pow2(n) <= policy.base_backoff@ * pow2(n + 1)) by (nonlinear_arith)
        requires
            pow2(n) <= pow2(n + 1),
    ;
}

/// A network blip is treated more gently than a rate limit: it gets no
/// more resumes (strictly fewer when the budget allows any), and never a
/// longer wait.
pub proof fn lemma_network_gentler(policy: RecoveryPolicy, resume_count: u32)
    ensures
        policy.resume_budget(PauseReason::Network) <= policy.resume_budget(PauseReason::RateLimit),
        policy.max_resumes > 0 ==> policy.resume_budget(PauseReason::Network) < policy.resume_budget(
            PauseReason::RateLimit,
        ),
        policy.delay_for(PauseReason::Network, resume_count) <= policy.delay_for(
            PauseReason::RateLimit,
            resume_count,
        ),
{
    lemma_backoff_monotone(policy, 0, resume_count);
}

} // verus!
