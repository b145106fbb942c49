//! `Session` and its explicit state machine.
//!
//! A session is one coding-agent subprocess working on one branch's
//! intent. Every pause has a name; there is no silent "stuck" state.

use vstd::prelude::*;

use crate::intent::{AgentId, IntentFile};
use crate::policy::PauseReason;

verus! {

/// Trusted: reads the system clock via `time::OffsetDateTime::now_utc`
/// and returns the instant as UNIX nanoseconds. Nothing is stated of the
/// value: it depends on the clock.
#[verifier::external_body]
pub(crate) fn now_unix_nanos() -> i128 {
    time::OffsetDateTime::now_utc().unix_timestamp_nanos()
}

/// Stable identifier for one session: the agent id of its intent.
#[derive(Debug, Clone, PartialEq, Eq, Hash)]
pub struct SessionId(pub String);

impl SessionId {
    /// The id of the session working on agent `a`'s intent.
    pub fn from_agent(a: &AgentId) -> (r: Self)
        ensures
            r.0@ == a@,
    {
        SessionId(a.to_string())
    }

    /// The id as an owned `String` (what `Display` writes).
    pub fn to_string(&self) -> (r: String)
        ensures
            r@ == self.0@,
    {
        self.0.clone()
    }

    /// A copy of this id.
    pub fn duplicate(&self) -> (r: Self)
        ensures
            r == *self,
    {
        SessionId(self.0.clone())
    }

    /// Equality by characters.
    pub fn same_as(&self, other: &SessionId) -> (r: bool)
        ensures
            r == (self.0@ == other.0@),
    {
        crate::text::str_eq(self.0.as_str(), other.0.as_str())
    }
}

/// Explicit session state machine.
///
/// Valid transitions: `Queued → Running`; `Running → Paused | Done |
/// Failed`; `Paused → Resumed → Running`; `Paused → Failed` when the
/// policy escalates.
#[derive(Debug, Clone, PartialEq, Eq)]
#[non_exhaustive]
pub enum SessionState {
    /// Not yet started.
    Queued,
    /// Subprocess running.
    Running,
    /// Paused for a named reason.
    Paused(PauseReason),
    /// Resumed from a pause; the next step moves it back to `Running`.
    Resumed,
    /// Successfully completed.
    Done,
    /// Failed.
    Failed {
        /// Human-readable reason.
        reason: String,
    },
}

/// What a session state says, with its reason text as characters.
pub enum StateView {
    /// Not yet started.
    Queued,
    /// Subprocess running.
    Running,
    /// Paused for a named reason.
    Paused(PauseReason),
    /// Resumed from a pause.
    Resumed,
    /// Successfully completed.
    Done,
    /// Failed, with the reason text.
    Failed(Seq<char>),
}

impl StateView {
    /// `Done` and `Failed` are terminal.
    pub open spec fn terminal(self) -> bool {
        self is Done || self is Failed
    }
}

impl View for SessionState {
    type V = StateView;

    open spec fn view(&self) -> StateView {
        match self {
            SessionState::Queued => StateView::Queued,
            SessionState::Running => StateView::Running,
            SessionState::Paused(r) => StateView::Paused(*r),
            SessionState::Resumed => StateView::Resumed,
            SessionState::Done => StateView::Done,
            SessionState::Failed { reason } => StateView::Failed(reason@),
        }
    }
}

impl SessionState {
    /// `Done` and `Failed` are terminal.
    pub open spec fn terminal(self) -> bool {
        self is Done || self is Failed
    }

    /// Stable label of a state.
    pub open spec fn label_spec(self) -> Seq<char> {
        match self {
            SessionState::Queued => "queued"@,
            SessionState::Running => "running"@,
            SessionState::Paused(_) => "paused"@,
            SessionState::Resumed => "resumed"@,
            SessionState::Done => "done"@,
            SessionState::Failed { .. } => "failed"@,
        }
    }

    /// True if the state machine has reached a terminal state.
    pub fn is_terminal(&self) -> (r: bool)
        ensures
            r == self.terminal(),
    {
        match self {
            SessionState::Done | SessionState::Failed { .. } => true,
            _ => false,
        }
    }

    /// True if the session is waiting to resume.
    pub fn is_paused(&self) -> (r: bool)
        ensures
            r == (self is Paused),
    {
        match self {
            SessionState::Paused(_) => true,
            _ => false,
        }
    }

    /// True if the session is executing.
    pub fn is_running(&self) -> (r: bool)
        ensures
            r == (self is Running),
    {
        match self {
            SessionState::Running => true,
            _ => false,
        }
    }

    /// Stable label for logging.
    pub fn label(&self) -> (r: &'static str)
        ensures
            r@ == self.label_spec(),
    {
        match self {
            SessionState::Queued => "queued",
            SessionState::Running => "running",
            SessionState::Paused(_) => "paused",
            SessionState::Resumed => "resumed",
            SessionState::Done => "done",
            SessionState::Failed { .. } => "failed",
        }
    }

    /// A copy of this state.
    pub fn duplicate(&self) -> (r: Self)
        ensures
            r == *self,
    {
        match self {
            SessionState::Queued => SessionState::Queued,
            SessionState::Running => SessionState::Running,
            SessionState::Paused(p) => SessionState::Paused(*p),
            SessionState::Resumed => SessionState::Resumed,
            SessionState::Done => SessionState::Done,
            SessionState::Failed { reason } => SessionState::Failed { reason: reason.clone() },
        }
    }
}

/// One conductor-managed work unit.
#[derive(Debug, Clone)]
#[non_exhaustive]
pub struct Session {
    /// Stable identifier (= the intent's agent id).
    pub id: SessionId,
    /// The intent this session executes.
    pub intent: IntentFile,
    /// Worktree path (where the agent is spawned).
    pub worktree: String,
    /// Current state.
    pub state: SessionState,
    /// When the session entered the current state (UNIX nanoseconds).
    pub state_since: i128,
    /// Times the session has been resumed from a pause.
    pub resume_count: u32,
    /// Last subprocess transcript line.
    pub last_log_line: Option<String>,
}

impl Session {
    /// A fresh session in the `Queued` state, stamped now.
    pub fn new(intent: IntentFile, worktree: String) -> (s: Self)
        ensures
            s.id.0@ == intent.agent_id@,
            s.intent == intent,
            s.worktree == worktree,
            s.state == SessionState::Queued,
            s.resume_count == 0,
            s.last_log_line is None,
    {
        let id = SessionId::from_agent(&intent.agent_id);
        Session {
            id,
            intent,
            worktree,
            state: SessionState::Queued,
            state_since: now_unix_nanos(),
            resume_count: 0,
            last_log_line: None,
        }
    }

    /// Everything but the state and its stamp is unchanged.
    pub open spec fn same_but_state(self, other: Session) -> bool {
        &&& self.id == other.id
        &&& self.intent == other.intent
        &&& self.worktree == other.worktree
        &&& self.resume_count == other.resume_count
        &&& self.last_log_line == other.last_log_line
    }

    /// Move to a new state, stamping `state_since` with the clock.
    pub fn transition(&mut self, new: SessionState)
        ensures
            final(self).state == new,
            final(self).same_but_state(*old(self)),
    {
        self.state = new;
        self.state_since = now_unix_nanos();
    }

    /// Increment the resume counter, saturating at `u32::MAX`.
    pub fn record_resume(&mut self)
        ensures
            final(self).resume_count == if old(self).resume_count == u32::MAX {
                u32::MAX
            } else {
                (old(self).resume_count + 1) as u32
            },
            final(self).state == old(self).state,
            final(self).state_since == old(self).state_since,
            final(self).id == old(self).id,
            final(self).intent == old(self).intent,
            final(self).worktree == old(self).worktree,
            final(self).last_log_line == old(self).last_log_line,
    {
        self.resume_count = self.resume_count.saturating_add(1);
    }
}

} // verus!
