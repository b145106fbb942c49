//! The boundary between the supervisor and a coding-agent subprocess,
//! and an in-memory deterministic driver whose behaviour is scripted.

use vstd::prelude::*;

use crate::policy::PauseReason;
use crate::session::SessionId;
use crate::text::push_str;

verus! {

/// Handle to a running coding-agent session.
#[derive(Debug, Clone)]
#[non_exhaustive]
pub struct SessionHandle {
    /// Stable session id (mirrors the session's own id).
    pub id: SessionId,
    /// Driver-specific opaque token (a process id and resume token for a
    /// real driver).
    pub token: String,
}

impl SessionHandle {
    /// A handle from its parts.
    pub fn new(id: SessionId, token: String) -> (h: Self)
        ensures
            h.id == id,
            h.token == token,
    {
        SessionHandle { id, token }
    }

    /// A copy of this handle.
    pub fn duplicate(&self) -> (h: Self)
        ensures
            h.id == self.id,
            h.token == self.token,
    {
        SessionHandle { id: self.id.duplicate(), token: self.token.clone() }
    }
}

/// One unit of progress observed from a session.
#[derive(Debug, Clone, PartialEq, Eq)]
#[non_exhaustive]
pub enum DriverEvent {
    /// The subprocess emitted a log line.
    Log {
        /// Line text, without its trailing newline.
        line: String,
    },
    /// The session paused for the named reason.
    Paused {
        /// Pause taxonomy.
        reason: PauseReason,
    },
    /// The session completed successfully.
    Done,
    /// The session failed irrecoverably.
    Failed {
        /// Human reason.
        reason: String,
    },
}

impl DriverEvent {
    /// A copy of this event.
    pub fn duplicate(&self) -> (r: Self)
        ensures
            r == *self,
    {
        match self {
            DriverEvent::Log { line } => DriverEvent::Log { line: line.clone() },
            DriverEvent::Paused { reason } => DriverEvent::Paused { reason: *reason },
            DriverEvent::Done => DriverEvent::Done,
            DriverEvent::Failed { reason } => DriverEvent::Failed { reason: reason.clone() },
        }
    }
}

/// Driver errors.
#[derive(Debug)]
#[non_exhaustive]
pub enum DriverError {
    /// Subprocess spawn failed.
    Spawn(String),
    /// I/O error talking to the subprocess.
    Io(String),
    /// The session id is unknown to the driver.
    UnknownSession(SessionId),
    /// The subprocess produced output the driver could not parse.
    Protocol(String),
}

impl DriverError {
    /// The rendered message of an error.
    pub open spec fn message_spec(self) -> Seq<char> {
        match self {
            DriverError::Spawn(s) => "driver spawn failed: "@ + s@,
            DriverError::Io(s) => "driver I/O: "@ + s@,
            DriverError::UnknownSession(id) => "driver: no such session "@ + id.0@,
            DriverError::Protocol(s) => "driver: protocol error: "@ + s@,
        }
    }

    /// The human-readable message (what `Display` writes).
    pub fn message(&self) -> (r: String)
        ensures
            r@ == self.message_spec(),
    {
        let (mut out, tail) = match self {
            DriverError::Spawn(s) => ("driver spawn failed: ".to_string(), s.as_str()),
            DriverError::Io(s) => ("driver I/O: ".to_string(), s.as_str()),
            DriverError::UnknownSession(id) => ("driver: no such session ".to_string(), id.0.as_str()),
            DriverError::Protocol(s) => ("driver: protocol error: ".to_string(), s.as_str()),
        };
        push_str(&mut out, tail);
        out
    }
}

/// Interface of a coding-agent subprocess driver.
///
/// Each driver says, through its own answer predicates, which answers it
/// gives; the supervisor's contracts are stated over those predicates and
/// so hold for every answer a driver may give.
pub trait ClaudeDriver: Sized {
    /// `r` is an answer this driver may give to a start of session `id`
    /// in `worktree`, briefed with `prompt` (by default, any answer).
    open spec fn start_answer(
        &self,
        id: Seq<char>,
        worktree: Seq<char>,
        prompt: Seq<char>,
        r: Result<SessionHandle, DriverError>,
    ) -> bool {
        true
    }

    /// `r` is an answer this driver may give to a poll of session `id`,
    /// after which it is `after` (by default, any answer).
    open spec fn poll_answer(
        &self,
        after: Self,
        id: Seq<char>,
        r: Result<Vec<DriverEvent>, DriverError>,
    ) -> bool {
        true
    }

    /// `r` is an answer this driver may give to a resume of session `id`,
    /// after which it is `after` (by default, any answer).
    open spec fn resume_answer(&self, after: Self, id: Seq<char>, r: Result<(), DriverError>) -> bool {
        true
    }

    /// Spawn a new session in `worktree`, briefed with `system_prompt`.
    fn start(&self, id: &SessionId, worktree: &str, system_prompt: &str) -> (r: Result<
        SessionHandle,
        DriverError,
    >)
        ensures
            self.start_answer(id.0@, worktree@, system_prompt@, r),
    ;

    /// Drain the pending events of a session (empty when none).
    fn poll(&mut self, handle: &SessionHandle) -> (r: Result<Vec<DriverEvent>, DriverError>)
        ensures
            old(self).poll_answer(*final(self), handle.id.0@, r),
    ;

    /// Resume a paused session.
    fn resume(&mut self, handle: &SessionHandle) -> (r: Result<(), DriverError>)
        ensures
            old(self).resume_answer(*final(self), handle.id.0@, r),
    ;

    /// Forcibly terminate a session.
    fn kill(&mut self, handle: &SessionHandle) -> Result<(), DriverError>;
}

/// The events of `q` queued for `id`, in order.
pub open spec fn pending_for(q: Seq<(Seq<char>, DriverEvent)>, id: Seq<char>) -> Seq<DriverEvent>
    decreases q.len(),
{
    if q.len() == 0 {
        Seq::empty()
    } else if q.last().0 == id {
        pending_for(q.drop_last(), id).push(q.last().1)
    } else {
        pending_for(q.drop_last(), id)
    }
}

/// The entries of `q` queued for sessions other than `id`, in order.
pub open spec fn pending_except(q: Seq<(Seq<char>, DriverEvent)>, id: Seq<char>) -> Seq<
    (Seq<char>, DriverEvent),
>
    decreases q.len(),
{
    if q.len() == 0 {
        Seq::empty()
    } else if q.last().0 == id {
        pending_except(q.drop_last(), id)
    } else {
        pending_except(q.drop_last(), id).push(q.last())
    }
}

/// How often `id` occurs in `log`.
pub open spec fn occurrences(log: Seq<Seq<char>>, id: Seq<char>) -> nat
    decreases log.len(),
{
    if log.len() == 0 {
        0
    } else {
        occurrences(log.drop_last(), id) + if log.last() == id {
            1nat
        } else {
            0nat
        }
    }
}

/// The ids of a sequence of session ids.
pub open spec fn id_views(ids: Seq<SessionId>) -> Seq<Seq<char>> {
    ids.map_values(|i: SessionId| i.0@)
}

/// In-memory deterministic driver. Tests script a sequence of events per
/// session id; `poll` drains that sequence in order. `resume` and `kill`
/// are recorded for inspection and produce no events of their own.
#[derive(Debug)]
pub struct MockDriver {
    queue: Vec<(SessionId, DriverEvent)>,
    resumes: Vec<SessionId>,
    killed: Vec<SessionId>,
}

impl MockDriver {
    /// Scripted events not yet drained, keyed by session id, in script
    /// order.
    pub closed spec fn queue(&self) -> Seq<(Seq<char>, DriverEvent)> {
        self.queue@.map_values(|e: (SessionId, DriverEvent)| (e.0.0@, e.1))
    }

    /// Every `resume` call so far, by session id, in call order.
    pub closed spec fn resumes(&self) -> Seq<Seq<char>> {
        id_views(self.resumes@)
    }

    /// Every `kill` call so far, by session id, in call order.
    pub closed spec fn kills(&self) -> Seq<Seq<char>> {
        id_views(self.killed@)
    }

    /// An empty driver: nothing scripted, nothing recorded.
    pub fn new() -> (d: Self)
        ensures
            d.queue() == Seq::<(Seq<char>, DriverEvent)>::empty(),
            d.resumes() == Seq::<Seq<char>>::empty(),
            d.kills() == Seq::<Seq<char>>::empty(),
    {
        let d = MockDriver { queue: Vec::new(), resumes: Vec::new(), killed: Vec::new() };
        assert(d.queue() =~= Seq::<(Seq<char>, DriverEvent)>::empty());
        assert(d.resumes() =~= Seq::<Seq<char>>::empty());
        assert(d.kills() =~= Seq::<Seq<char>>::empty());
        d
    }

    /// Script `event` to be returned by the next `poll` of `id`, after
    /// the events already scripted for it.
    pub fn script(&mut self, id: &SessionId, event: DriverEvent)
        ensures
            final(self).queue() == old(self).queue().push((id.0@, event)),
            final(self).resumes() == old(self).resumes(),
            final(self).kills() == old(self).kills(),
    {
        self.queue.push((id.duplicate(), event));
        assert(self.queue() =~= old(self).queue().push((id.0@, event)));
    }

    /// How many times `resume` was called for `id` (saturating at
    /// `u32::MAX`).
    pub fn resume_count(&self, id: &SessionId) -> (r: u32)
        ensures
            r == if occurrences(self.resumes(), id.0@) <= u32::MAX {
                occurrences(self.resumes(), id.0@)
            } else {
                u32::MAX as nat
            },
    {
        let mut n: u32 = 0;
        let mut i: usize = 0;
        while i < self.resumes.len()
            invariant
                i <= self.resumes@.len(),
                n == if occurrences(self.resumes().take(i as int), id.0@) <= u32::MAX {
                    occurrences(self.resumes().take(i as int), id.0@)
                } else {
                    u32::MAX as nat
                },
            decreases self.resumes.len() - i,
        {
            assert(self.resumes().take(i + 1).drop_last() =~= self.resumes().take(i as int));
            if self.resumes[i].same_as(id) {
                n = n.saturating_add(1);
            }
            i = i + 1;
        }
        assert(self.resumes().take(i as int) =~= self.resumes());
        n
    }

    /// Whether `kill` was ever called for `id`.
    pub fn was_killed(&self, id: &SessionId) -> (r: bool)
        ensures
            r == self.kills().contains(id.0@),
    {
        let mut i: usize = 0;
        while i < self.killed.len()
            invariant
                i <= self.killed@.len(),
                forall|j: int| 0 <= j < i ==> self.kills()[j] != id.0@,
            decreases self.killed.len() - i,
        {
            if self.killed[i].same_as(id) {
                assert(self.kills()[i as int] == id.0@);
                return true;
            }
            i = i + 1;
        }
        false
    }

    /// A handle for `id` whose token is `mock-` followed by the id.
    pub fn start(&self, id: &SessionId, worktree: &str, system_prompt: &str) -> (r: Result<
        SessionHandle,
        DriverError,
    >)
        ensures
            r matches Ok(h) && h.id.0@ == id.0@ && h.token@ == "mock-"@ + id.0@,
    {
        let mut token = "mock-".to_string();
        push_str(&mut token, id.0.as_str());
        Ok(SessionHandle { id: id.duplicate(), token })
    }

    /// Drain, in script order, every event scripted for the handle's
    /// session; the events of other sessions stay queued.
    pub fn poll(&mut self, handle: &SessionHandle) -> (r: Result<Vec<DriverEvent>, DriverError>)
        ensures
            r matches Ok(v) && v@ == pending_for(old(self).queue(), handle.id.0@),
            final(self).queue() == pending_except(old(self).queue(), handle.id.0@),
            final(self).resumes() == old(self).resumes(),
            final(self).kills() == old(self).kills(),
    {
        let ghost q = self.queue();
        let ghost key = handle.id.0@;
        let mut out: Vec<DriverEvent> = Vec::new();
        let mut rest: Vec<(SessionId, DriverEvent)> = Vec::new();
        let mut i: usize = 0;
        while i < self.queue.len()
            invariant
                q == self.queue(),
                key == handle.id.0@,
                i <= self.queue@.len(),
                out@ == pending_for(q.take(i as int), key),
                rest@.map_values(|e: (SessionId, DriverEvent)| (e.0.0@, e.1)) == pending_except(
                    q.take(i as int),
                    key,
                ),
            decreases self.queue.len() - i,
        {
            assert(q.take(i + 1).drop_last() =~= q.take(i as int));
            let entry = &self.queue[i];
            if entry.0.same_as(&handle.id) {
                out.push(entry.1.duplicate());
            } else {
                let ghost before = rest@;
                rest.push((entry.0.duplicate(), entry.1.duplicate()));
                assert(rest@.map_values(|e: (SessionId, DriverEvent)| (e.0.0@, e.1)) =~= before.map_values(
                    |e: (SessionId, DriverEvent)| (e.0.0@, e.1),
                ).push((entry.0.0@, entry.1)));
            }
            i = i + 1;
        }
        assert(q.take(i as int) =~= q);
        self.queue = rest;
        Ok(out)
    }

    /// Record a resume of the handle's session.
    pub fn resume(&mut self, handle: &SessionHandle) -> (r: Result<(), DriverError>)
        ensures
            r is Ok,
            final(self).resumes() == old(self).resumes().push(handle.id.0@),
            final(self).queue() == old(self).queue(),
            final(self).kills() == old(self).kills(),
    {
        self.resumes.push(handle.id.duplicate());
        assert(self.resumes() =~= old(self).resumes().push(handle.id.0@));
        Ok(())
    }

    /// Record a kill of the handle's session.
    pub fn kill(&mut self, handle: &SessionHandle) -> (r: Result<(), DriverError>)
        ensures
            r is Ok,
            final(self).kills() == old(self).kills().push(handle.id.0@),
            final(self).queue() == old(self).queue(),
            final(self).resumes() == old(self).resumes(),
    {
        self.killed.push(handle.id.duplicate());
        assert(self.kills() =~= old(self).kills().push(handle.id.0@));
        Ok(())
    }
}

impl ClaudeDriver for MockDriver {
    /// Always a handle for `id` with the token `mock-<id>`, wherever and
    /// however the session is briefed.
    open spec fn start_answer(
        &self,
        id: Seq<char>,
        worktree: Seq<char>,
        prompt: Seq<char>,
        r: Result<SessionHandle, DriverError>,
    ) -> bool {
        r matches Ok(h) && h.id.0@ == id && h.token@ == "mock-"@ + id
    }

    /// Always the events scripted for `id`, which leave the queue.
    open spec fn poll_answer(
        &self,
        after: Self,
        id: Seq<char>,
        r: Result<Vec<DriverEvent>, DriverError>,
    ) -> bool {
        &&& r matches Ok(v) && v@ == pending_for(self.queue(), id)
        &&& after.queue() == pending_except(self.queue(), id)
        &&& after.resumes() == self.resumes()
        &&& after.kills() == self.kills()
    }

    /// Always `Ok`, recording the resume.
    open spec fn resume_answer(&self, after: Self, id: Seq<char>, r: Result<(), DriverError>) -> bool {
        &&& r is Ok
        &&& after.resumes() == self.resumes().push(id)
        &&& after.queue() == self.queue()
        &&& after.kills() == self.kills()
    }

    fn start(&self, id: &SessionId, worktree: &str, system_prompt: &str) -> (r: Result<
        SessionHandle,
        DriverError,
    >) {
        MockDriver::start(self, id, worktree, system_prompt)
    }

    fn poll(&mut self, handle: &SessionHandle) -> (r: Result<Vec<DriverEvent>, DriverError>) {
        MockDriver::poll(self, handle)
    }

    fn resume(&mut self, handle: &SessionHandle) -> (r: Result<(), DriverError>) {
        MockDriver::resume(self, handle)
    }

    fn kill(&mut self, handle: &SessionHandle) -> (r: Result<(), DriverError>)
        ensures
            r is Ok,
            final(self).kills() == old(self).kills().push(handle.id.0@),
            final(self).queue() == old(self).queue(),
            final(self).resumes() == old(self).resumes(),
    {
        MockDriver::kill(self, handle)
    }
}

} // verus!
