//! The supervisor: owns a list of sessions, steps each one through its
//! state machine per the recovery policy, and records events.
//!
//! The supervisor is driver-agnostic: its contracts are stated over the
//! answer predicates of the driver's trait, so they hold whatever a
//! driver answers, and say exactly what follows from each answer. For
//! the mock driver, whose predicates pin its answers down, they fix the
//! outcome of every step.

use vstd::prelude::*;

use crate::driver::{ClaudeDriver, DriverError, DriverEvent, MockDriver, SessionHandle};
use crate::event::{
    about, appended, appended_each, kinds_of, lemma_appended_each_push, lemma_appended_each_shift,
    lemma_appended_none, lemma_appended_push, lemma_appended_trans,
    KindView, SupervisorEvent, SupervisorEventKind, TerminalOutcome,
};
use crate::policy::{escalation_text, max_resumes_text, PauseReason, RecoveryAction, RecoveryPolicy};
use crate::session::{Session, SessionId, SessionState, StateView};
use crate::text::{join, push_joined, push_str, string_views};

verus! {

/// A session under supervision, with its driver handle once started.
#[derive(Debug)]
pub struct TrackedSession {
    /// The session.
    pub session: Session,
    /// The driver's handle, once the session has been started.
    pub handle: Option<SessionHandle>,
}

/// The characters of an optional string.
pub open spec fn opt_view(o: Option<String>) -> Option<Seq<char>> {
    match o {
        Some(s) => Some(s@),
        None => None,
    }
}

/// The escalation text a pause for `reason` gets after `rc` resumes, or
/// `None` when the policy schedules a resume instead.
pub open spec fn pause_escalation(policy: RecoveryPolicy, reason: PauseReason, rc: u32) -> Option<
    Seq<char>,
> {
    if rc >= policy.resume_budget(reason) {
        Some(max_resumes_text())
    } else if !reason.recoverable() {
        Some(escalation_text(reason))
    } else {
        None
    }
}

/// The events a pause handled by the policy emits.
pub open spec fn pause_kinds(policy: RecoveryPolicy, reason: PauseReason, rc: u32) -> Seq<KindView> {
    match pause_escalation(policy, reason, rc) {
        Some(t) => seq![KindView::Escalated(t), KindView::Terminal(TerminalOutcome::Failed)],
        None => seq![KindView::ResumeScheduled(policy.delay_for(reason, rc) / 1_000_000_000)],
    }
}

/// The state a session is in after one driver event.
pub open spec fn event_state(policy: RecoveryPolicy, state: StateView, rc: u32, ev: DriverEvent) -> StateView {
    match ev {
        DriverEvent::Log { .. } => state,
        DriverEvent::Paused { reason } => match pause_escalation(policy, reason, rc) {
            Some(t) => StateView::Failed(t),
            None => StateView::Paused(reason),
        },
        DriverEvent::Done => StateView::Done,
        DriverEvent::Failed { reason } => StateView::Failed(reason@),
    }
}

/// The last log line a session remembers after one driver event.
pub open spec fn event_log(last: Option<Seq<char>>, ev: DriverEvent) -> Option<Seq<char>> {
    match ev {
        DriverEvent::Log { line } => Some(line@),
        _ => last,
    }
}

/// The supervisor events one driver event emits.
pub open spec fn event_kinds(policy: RecoveryPolicy, rc: u32, ev: DriverEvent) -> Seq<KindView> {
    match ev {
        DriverEvent::Log { line } => seq![KindView::Log(line@)],
        DriverEvent::Paused { reason } => seq![KindView::Paused(reason)] + pause_kinds(policy, reason, rc),
        DriverEvent::Done => seq![KindView::Terminal(TerminalOutcome::Done)],
        DriverEvent::Failed { reason } => seq![
            KindView::Terminal(TerminalOutcome::Failed),
            KindView::Escalated(reason@),
        ],
    }
}

/// A session in this state takes no further events of the batch being
/// applied: it is terminal, or paused and waiting for a wake.
pub open spec fn stops_batch(s: StateView) -> bool {
    s.terminal() || s is Paused
}

/// State and last log line after applying `evs` in order, stopping at
/// the first event that makes the session terminal or pauses it (a
/// paused session only leaves its pause through a wake).
pub open spec fn drained(
    policy: RecoveryPolicy,
    state: StateView,
    last: Option<Seq<char>>,
    rc: u32,
    evs: Seq<DriverEvent>,
) -> (StateView, Option<Seq<char>>)
    decreases evs.len(),
{
    if evs.len() == 0 {
        (state, last)
    } else {
        let s2 = event_state(policy, state, rc, evs[0]);
        let l2 = event_log(last, evs[0]);
        if stops_batch(s2) {
            (s2, l2)
        } else {
            drained(policy, s2, l2, rc, evs.drop_first())
        }
    }
}

/// The supervisor events emitted while applying `evs` as `drained` does.
pub open spec fn drained_kinds(policy: RecoveryPolicy, state: StateView, rc: u32, evs: Seq<DriverEvent>) -> Seq<
    KindView,
>
    decreases evs.len(),
{
    if evs.len() == 0 {
        Seq::empty()
    } else {
        let s2 = event_state(policy, state, rc, evs[0]);
        event_kinds(policy, rc, evs[0]) + if stops_batch(s2) {
            Seq::empty()
        } else {
            drained_kinds(policy, s2, rc, evs.drop_first())
        }
    }
}

/// Id, intent, worktree and resume count are unchanged.
pub open spec fn keeps_identity(a: TrackedSession, b: TrackedSession) -> bool {
    &&& b.session.id == a.session.id
    &&& b.session.intent == a.session.intent
    &&& b.session.worktree == a.session.worktree
    &&& b.session.resume_count == a.session.resume_count
}

/// `b` is what one step can make of `a`, whatever the driver answered:
/// a queued session starts, a running one applies a batch of driver
/// events, a resumed one runs again; paused and terminal sessions are
/// left alone.
pub open spec fn stepped(policy: RecoveryPolicy, a: TrackedSession, b: TrackedSession) -> bool {
    &&& keeps_identity(a, b)
    &&& match a.session.state@ {
        StateView::Queued => b.session.state@ == StateView::Running && b.handle is Some
            && b.session.last_log_line == a.session.last_log_line,
        StateView::Running => b.handle == a.handle && exists|evs: Seq<DriverEvent>|
            #[trigger] drained(
                policy,
                StateView::Running,
                opt_view(a.session.last_log_line),
                a.session.resume_count,
                evs,
            ) == (b.session.state@, opt_view(b.session.last_log_line)),
        StateView::Resumed => b.session.state@ == StateView::Running && b.handle == a.handle
            && b.session.last_log_line == a.session.last_log_line,
        _ => b == a,
    }
}

/// The id a session is known by to the driver: that of its handle once
/// started, else its own.
pub open spec fn handle_id(a: TrackedSession) -> Seq<char> {
    match a.handle {
        Some(h) => h.id.0@,
        None => a.session.id.0@,
    }
}

/// What one step makes of a session `a` and of the driver, given the
/// driver's answers: `d0` is the driver before the session's turn, `d1`
/// after it, `b` the session after it and `ks` the kinds of the events
/// recorded for it. A queued session is started, a running one applies
/// the events its poll returned, a resumed one is resumed; the others
/// are left alone and the driver is not asked.
pub open spec fn advanced<D: ClaudeDriver>(
    policy: RecoveryPolicy,
    d0: D,
    d1: D,
    a: TrackedSession,
    b: TrackedSession,
    ks: Seq<KindView>,
) -> bool {
    &&& stepped(policy, a, b)
    &&& match a.session.state@ {
        StateView::Queued => d1 == d0 && ks == seq![KindView::Started] && (b.handle matches Some(
            h,
        ) && d0.start_answer(
            a.session.id.0@,
            a.session.worktree@,
            prompt_spec(a.session),
            Ok(h),
        )),
        StateView::Running => exists|v: Vec<DriverEvent>|
            #[trigger] d0.poll_answer(d1, handle_id(a), Ok(v)) && drained(
                policy,
                StateView::Running,
                opt_view(a.session.last_log_line),
                a.session.resume_count,
                v@,
            ) == (b.session.state@, opt_view(b.session.last_log_line)) && ks == drained_kinds(
                policy,
                StateView::Running,
                a.session.resume_count,
                v@,
            ),
        StateView::Resumed => ks == seq![KindView::Started] && exists|ok: Result<(), DriverError>|
            #[trigger] d0.resume_answer(d1, handle_id(a), ok) && ok is Ok,
        _ => d1 == d0 && ks == Seq::<KindView>::empty(),
    }
}

/// The driver's answer in state `d` to session `a`'s turn is a failure
/// that a step reports as `e`: a refused start, poll or resume, or a
/// running or resumed session without a handle.
pub open spec fn fails_at<D: ClaudeDriver>(d: D, a: TrackedSession, e: SupervisorError) -> bool {
    match a.session.state@ {
        StateView::Queued => exists|err: DriverError|
            #[trigger] d.start_answer(
                a.session.id.0@,
                a.session.worktree@,
                prompt_spec(a.session),
                Err(err),
            ) && e == (SupervisorError::Driver {
                id: a.session.id,
                source: err,
            }),
        StateView::Running => (a.handle is None && e is Inconsistent) || exists|d1: D, err: DriverError|
            #[trigger] d.poll_answer(d1, handle_id(a), Err(err)) && e == (SupervisorError::Driver {
                id: a.session.id,
                source: err,
            }),
        StateView::Resumed => (a.handle is None && e is Inconsistent) || exists|d1: D, err: DriverError|
            #[trigger] d.resume_answer(d1, handle_id(a), Err(err)) && e == (
            SupervisorError::Driver { id: a.session.id, source: err }),
        _ => false,
    }
}

/// The ids of the tracked sessions, in order.
pub open spec fn session_ids(ts: Seq<TrackedSession>) -> Seq<Seq<char>> {
    ts.map_values(|t: TrackedSession| t.session.id.0@)
}

/// A whole step, session by session: `ds[i]` is the driver before the
/// turn of session `i` and `ds[i + 1]` after it, `kss[i]` the kinds of
/// the events recorded for it.
pub open spec fn step_trace<D: ClaudeDriver>(
    policy: RecoveryPolicy,
    a: Seq<TrackedSession>,
    b: Seq<TrackedSession>,
    ds: Seq<D>,
    kss: Seq<Seq<KindView>>,
) -> bool {
    &&& ds.len() == a.len() + 1
    &&& kss.len() == a.len()
    &&& b.len() == a.len()
    &&& forall|i: int|
        #![trigger kss[i]]
        0 <= i < a.len() ==> advanced(policy, ds[i], ds[i + 1], a[i], b[i], kss[i])
}

/// `k` is the first position of `ts` whose session has the id `id`.
pub open spec fn is_first(ts: Seq<TrackedSession>, id: Seq<char>, k: int) -> bool {
    &&& 0 <= k < ts.len()
    &&& ts[k].session.id.0@ == id
    &&& forall|j: int| 0 <= j < k ==> (#[trigger] ts[j]).session.id.0@ != id
}

/// What `wake` makes of the session it finds.
pub open spec fn woken(a: TrackedSession, b: TrackedSession) -> bool {
    if a.session.state is Paused {
        &&& b.session.state@ == StateView::Resumed
        &&& b.session.resume_count == if a.session.resume_count == u32::MAX {
            u32::MAX
        } else {
            (a.session.resume_count + 1) as u32
        }
        &&& b.session.id == a.session.id
        &&& b.session.intent == a.session.intent
        &&& b.session.worktree == a.session.worktree
        &&& b.session.last_log_line == a.session.last_log_line
        &&& b.handle == a.handle
    } else {
        b == a
    }
}

/// The system prompt a freshly spawned session is briefed with.
pub open spec fn prompt_spec(s: Session) -> Seq<char> {
    "You are working on branch `"@ + s.intent.branch@ + "` in worktree `"@ + s.worktree@
        + "`.\nGoal: "@ + s.intent.goal@ + "\nSuccess criterion: `"@ + s.intent.success_test@
        + "` must exit 0.\nDeclared file scope (do NOT touch anything outside this set):\n  - "@
        + join(string_views(s.intent.declared_files@), "\n  - "@) + "\n"@
}

/// Render the system prompt handed to a freshly spawned agent session:
/// the branch, worktree, goal, success test and declared file scope.
pub fn render_system_prompt(session: &Session) -> (r: String)
    ensures
        r@ == prompt_spec(*session),
{
    let mut s = "You are working on branch `".to_string();
    push_str(&mut s, session.intent.branch.as_str());
    push_str(&mut s, "` in worktree `");
    push_str(&mut s, session.worktree.as_str());
    push_str(&mut s, "`.\nGoal: ");
    push_str(&mut s, session.intent.goal.as_str());
    push_str(&mut s, "\nSuccess criterion: `");
    push_str(&mut s, session.intent.success_test.as_str());
    push_str(&mut s, "` must exit 0.\nDeclared file scope (do NOT touch anything outside this set):\n  - ");
    push_joined(&mut s, &session.intent.declared_files, "\n  - ");
    push_str(&mut s, "\n");
    s
}

/// Supervisor errors.
#[derive(Debug)]
#[non_exhaustive]
pub enum SupervisorError {
    /// A driver call failed for a specific session.
    Driver {
        /// The affected session.
        id: SessionId,
        /// Underlying driver error.
        source: DriverError,
    },
    /// The state machine reached an inconsistent state.
    Inconsistent {
        /// The affected session.
        id: SessionId,
        /// Diagnostic message.
        msg: &'static str,
    },
    /// The caller asked about a session id that is not entry.
    UnknownSession(SessionId),
}

impl SupervisorError {
    /// The rendered message of an error.
    pub open spec fn message_spec(self) -> Seq<char> {
        match self {
            SupervisorError::Driver { id, source } => "session "@ + id.0@ + ": driver error: "@
                + source.message_spec(),
            SupervisorError::Inconsistent { id, msg } => "session "@ + id.0@
                + ": inconsistent state: "@ + msg@,
            SupervisorError::UnknownSession(id) => "session "@ + id.0@ + ": unknown"@,
        }
    }

    /// The human-readable message (what `Display` writes).
    pub fn message(&self) -> (r: String)
        ensures
            r@ == self.message_spec(),
    {
        let mut out = "session ".to_string();
        match self {
            SupervisorError::Driver { id, source } => {
                push_str(&mut out, id.0.as_str());
                push_str(&mut out, ": driver error: ");
                let m = source.message();
                push_str(&mut out, m.as_str());
            },
            SupervisorError::Inconsistent { id, msg } => {
                push_str(&mut out, id.0.as_str());
                push_str(&mut out, ": inconsistent state: ");
                push_str(&mut out, msg);
            },
            SupervisorError::UnknownSession(id) => {
                push_str(&mut out, id.0.as_str());
                push_str(&mut out, ": unknown");
            },
        }
        out
    }
}

/// Push an event about `id` stamped now.
fn emit_for(events: &mut Vec<SupervisorEvent>, id: &SessionId, kind: SupervisorEventKind)
    ensures
        appended(old(events)@, final(events)@, id.0@, seq![kind@]),
{
    let ghost before = events@;
    let e = SupervisorEvent::now(Some(id.duplicate()), kind);
    proof {
        lemma_appended_push(before, e, id.0@);
    }
    events.push(e);
}

/// Act on a pause as the policy decides: schedule a resume (the session
/// stays paused), or escalate and fail the session.
pub fn handle_pause(
    policy: RecoveryPolicy,
    entry: &mut TrackedSession,
    reason: PauseReason,
    events: &mut Vec<SupervisorEvent>,
)
    ensures
        keeps_identity(*old(entry), *final(entry)),
        final(entry).handle == old(entry).handle,
        final(entry).session.last_log_line == old(entry).session.last_log_line,
        final(entry).session.state@ == match pause_escalation(
            policy,
            reason,
            old(entry).session.resume_count,
        ) {
            Some(t) => StateView::Failed(t),
            None => old(entry).session.state@,
        },
        appended(
            old(events)@,
            final(events)@,
            old(entry).session.id.0@,
            pause_kinds(policy, reason, old(entry).session.resume_count),
        ),
{
    let ghost e0 = events@;
    let ghost rc = entry.session.resume_count;
    match policy.decide(reason, entry.session.resume_count) {
        RecoveryAction::ResumeAfter { delay } => {
            let secs = delay.as_secs();
            emit_for(events, &entry.session.id, SupervisorEventKind::ResumeScheduled { delay_seconds: secs });
        },
        RecoveryAction::Escalate { reason: msg } => {
            entry.session.transition(SessionState::Failed { reason: msg.to_string() });
            let ghost e1 = events@;
            emit_for(events, &entry.session.id, SupervisorEventKind::Escalated { reason: msg.to_string() });
            let ghost e2 = events@;
            emit_for(
                events,
                &entry.session.id,
                SupervisorEventKind::Terminal { outcome: TerminalOutcome::Failed },
            );
            proof {
                lemma_appended_trans(
                    e1,
                    e2,
                    events@,
                    entry.session.id.0@,
                    seq![KindView::Escalated(msg@)],
                    seq![KindView::Terminal(TerminalOutcome::Failed)],
                );
                assert(seq![KindView::Escalated(msg@)] + seq![
                    KindView::Terminal(TerminalOutcome::Failed),
                ] =~= pause_kinds(policy, reason, rc));
            }
        },
    }
}

/// Apply one driver event to a session: remember a log line, pause (and
/// let the policy decide), or reach `Done` / `Failed`.
pub fn apply_driver_event(
    policy: RecoveryPolicy,
    entry: &mut TrackedSession,
    ev: DriverEvent,
    events: &mut Vec<SupervisorEvent>,
)
    ensures
        keeps_identity(*old(entry), *final(entry)),
        final(entry).handle == old(entry).handle,
        final(entry).session.state@ == event_state(
            policy,
            old(entry).session.state@,
            old(entry).session.resume_count,
            ev,
        ),
        opt_view(final(entry).session.last_log_line) == event_log(
            opt_view(old(entry).session.last_log_line),
            ev,
        ),
        ev is Log ==> final(entry).session.state == old(entry).session.state
            && final(entry).session.state_since == old(entry).session.state_since,
        appended(
            old(events)@,
            final(events)@,
            old(entry).session.id.0@,
            event_kinds(policy, old(entry).session.resume_count, ev),
        ),
{
    let ghost e0 = events@;
    let ghost rc = entry.session.resume_count;
    let ghost id = entry.session.id.0@;
    let ghost ev0 = ev;
    match ev {
        DriverEvent::Log { line } => {
            entry.session.last_log_line = Some(line.clone());
            emit_for(events, &entry.session.id, SupervisorEventKind::Log { line });
        },
        DriverEvent::Paused { reason } => {
            entry.session.transition(SessionState::Paused(reason));
            emit_for(events, &entry.session.id, SupervisorEventKind::Paused { reason });
            let ghost e1 = events@;
            handle_pause(policy, entry, reason, events);
            proof {
                lemma_appended_trans(
                    e0,
                    e1,
                    events@,
                    id,
                    seq![KindView::Paused(reason)],
                    pause_kinds(policy, reason, rc),
                );
            }
        },
        DriverEvent::Done => {
            entry.session.transition(SessionState::Done);
            emit_for(
                events,
                &entry.session.id,
                SupervisorEventKind::Terminal { outcome: TerminalOutcome::Done },
            );
        },
        DriverEvent::Failed { reason } => {
            entry.session.transition(SessionState::Failed { reason: reason.clone() });
            emit_for(
                events,
                &entry.session.id,
                SupervisorEventKind::Terminal { outcome: TerminalOutcome::Failed },
            );
            let ghost e1 = events@;
            emit_for(events, &entry.session.id, SupervisorEventKind::Escalated { reason });
            proof {
                lemma_appended_trans(
                    e0,
                    e1,
                    events@,
                    id,
                    seq![KindView::Terminal(TerminalOutcome::Failed)],
                    seq![KindView::Escalated(reason@)],
                );
                assert(seq![KindView::Terminal(TerminalOutcome::Failed)] + seq![
                    KindView::Escalated(reason@),
                ] =~= event_kinds(policy, rc, ev0));
            }
        },
    }
}

/// Apply a drained batch of driver events in order, stopping at the
/// first one that makes the session terminal or pauses it.
pub fn apply_driver_events(
    policy: RecoveryPolicy,
    entry: &mut TrackedSession,
    evs: &Vec<DriverEvent>,
    events: &mut Vec<SupervisorEvent>,
)
    requires
        !stops_batch(old(entry).session.state@),
    ensures
        keeps_identity(*old(entry), *final(entry)),
        final(entry).handle == old(entry).handle,
        (final(entry).session.state@, opt_view(final(entry).session.last_log_line)) == drained(
            policy,
            old(entry).session.state@,
            opt_view(old(entry).session.last_log_line),
            old(entry).session.resume_count,
            evs@,
        ),
        appended(
            old(events)@,
            final(events)@,
            old(entry).session.id.0@,
            drained_kinds(policy, old(entry).session.state@, old(entry).session.resume_count, evs@),
        ),
{
    let ghost start = *entry;
    let ghost e0 = events@;
    let ghost s0 = entry.session.state@;
    let ghost l0 = opt_view(entry.session.last_log_line);
    let ghost rc = entry.session.resume_count;
    let ghost id = entry.session.id.0@;
    let ghost mut emitted: Seq<KindView> = Seq::empty();
    proof {
        lemma_appended_none(e0, id);
    }
    assert(evs@.skip(0) =~= evs@);
    assert(emitted + drained_kinds(policy, s0, rc, evs@) =~= drained_kinds(policy, s0, rc, evs@));
    let mut i: usize = 0;
    let mut stop = false;
    while i < evs.len() && !stop
        invariant
            i <= evs@.len(),
            keeps_identity(start, *entry),
            entry.handle == start.handle,
            rc == entry.session.resume_count,
            id == entry.session.id.0@,
            appended(e0, events@, id, emitted),
            stop ==> ((entry.session.state@, opt_view(entry.session.last_log_line)) == drained(
                policy,
                s0,
                l0,
                rc,
                evs@,
            ) && emitted == drained_kinds(policy, s0, rc, evs@)),
            !stop ==> (!stops_batch(entry.session.state@) && drained(
                policy,
                entry.session.state@,
                opt_view(entry.session.last_log_line),
                rc,
                evs@.skip(i as int),
            ) == drained(policy, s0, l0, rc, evs@) && emitted + drained_kinds(
                policy,
                entry.session.state@,
                rc,
                evs@.skip(i as int),
            ) == drained_kinds(policy, s0, rc, evs@)),
        decreases evs.len() - i,
    {
        let ghost cur = entry.session.state@;
        let ghost curl = opt_view(entry.session.last_log_line);
        let ghost before = events@;
        let ghost rest = evs@.skip(i as int);
        assert(rest[0] == evs@[i as int]);
        assert(rest.drop_first() =~= evs@.skip(i + 1));
        let ev = evs[i].duplicate();
        apply_driver_event(policy, entry, ev, events);
        proof {
            lemma_appended_trans(e0, before, events@, id, emitted, event_kinds(policy, rc, ev));
            emitted = emitted + event_kinds(policy, rc, ev);
        }
        if entry.session.state.is_terminal() || entry.session.state.is_paused() {
            stop = true;
            proof {
                assert(drained_kinds(policy, cur, rc, rest) =~= event_kinds(policy, rc, ev));
            }
        } else {
            proof {
                assert(drained_kinds(policy, cur, rc, rest) =~= event_kinds(policy, rc, ev)
                    + drained_kinds(policy, entry.session.state@, rc, evs@.skip(i + 1)));
                assert(emitted + drained_kinds(policy, entry.session.state@, rc, evs@.skip(i + 1))
                    =~= drained_kinds(policy, s0, rc, evs@));
            }
        }
        i = i + 1;
    }
    proof {
        if !stop {
            assert(evs@.skip(i as int) =~= Seq::<DriverEvent>::empty());
            assert(emitted + Seq::<KindView>::empty() =~= emitted);
        }
    }
}

/// Start a queued session through the driver.
fn start_session<D: ClaudeDriver>(
    driver: &D,
    entry: &mut TrackedSession,
    events: &mut Vec<SupervisorEvent>,
) -> (r: Result<(), SupervisorError>)
    requires
        old(entry).session.state@ == StateView::Queued,
    ensures
        r is Ok ==> stepped_start(*old(entry), *final(entry)) && appended(
            old(events)@,
            final(events)@,
            old(entry).session.id.0@,
            seq![KindView::Started],
        ) && (final(entry).handle matches Some(h) && driver.start_answer(
            old(entry).session.id.0@,
            old(entry).session.worktree@,
            prompt_spec(old(entry).session),
            Ok(h),
        )),
        r is Err ==> *final(entry) == *old(entry) && final(events)@ == old(events)@,
        r matches Err(e) ==> fails_at(*driver, *old(entry), e),
{
    let prompt = render_system_prompt(&entry.session);
    match driver.start(&entry.session.id, entry.session.worktree.as_str(), prompt.as_str()) {
        Ok(handle) => {
            entry.handle = Some(handle);
            entry.session.transition(SessionState::Running);
            emit_for(events, &entry.session.id, SupervisorEventKind::Started);
            Ok(())
        },
        Err(e) => {
            let ghost err = e;
            let r = SupervisorError::Driver { id: entry.session.id.duplicate(), source: e };
            assert(driver.start_answer(
                entry.session.id.0@,
                entry.session.worktree@,
                prompt_spec(entry.session),
                Err(err),
            ));
            Err(r)
        },
    }
}

/// What starting a queued session makes of it.
pub open spec fn stepped_start(a: TrackedSession, b: TrackedSession) -> bool {
    &&& keeps_identity(a, b)
    &&& b.session.state@ == StateView::Running
    &&& b.handle is Some
    &&& b.session.last_log_line == a.session.last_log_line
}

/// Poll a running session and apply what the driver returned.
fn poll_session<D: ClaudeDriver>(
    driver: &mut D,
    policy: RecoveryPolicy,
    entry: &mut TrackedSession,
    events: &mut Vec<SupervisorEvent>,
) -> (r: Result<(), SupervisorError>)
    requires
        old(entry).session.state@ == StateView::Running,
    ensures
        r is Ok ==> stepped(policy, *old(entry), *final(entry)) && exists|v: Vec<DriverEvent>|
            #[trigger] old(driver).poll_answer(*final(driver), handle_id(*old(entry)), Ok(v))
                && drained(
                policy,
                StateView::Running,
                opt_view(old(entry).session.last_log_line),
                old(entry).session.resume_count,
                v@,
            ) == (final(entry).session.state@, opt_view(final(entry).session.last_log_line))
                && appended(
                old(events)@,
                final(events)@,
                old(entry).session.id.0@,
                drained_kinds(policy, StateView::Running, old(entry).session.resume_count, v@),
            ),
        r is Err ==> *final(entry) == *old(entry) && final(events)@ == old(events)@,
        r matches Err(e) ==> (e is Inconsistent <==> old(entry).handle is None),
        r matches Err(e) ==> fails_at(*old(driver), *old(entry), e),
{
    let handle = match &entry.handle {
        Some(h) => h.duplicate(),
        None => {
            return Err(
                SupervisorError::Inconsistent {
                    id: entry.session.id.duplicate(),
                    msg: "running without handle",
                },
            );
        },
    };
    let ghost d0 = *driver;
    match driver.poll(&handle) {
        Ok(drained_events) => {
            let ghost a = *entry;
            let ghost v = drained_events;
            apply_driver_events(policy, entry, &drained_events, events);
            assert(drained(
                policy,
                StateView::Running,
                opt_view(a.session.last_log_line),
                a.session.resume_count,
                drained_events@,
            ) == (entry.session.state@, opt_view(entry.session.last_log_line)));
            assert(d0.poll_answer(*driver, handle_id(a), Ok(v)));
            Ok(())
        },
        Err(e) => {
            let ghost err = e;
            let r = SupervisorError::Driver { id: entry.session.id.duplicate(), source: e };
            assert(d0.poll_answer(*driver, handle_id(*entry), Err(err)));
            Err(r)
        },
    }
}

/// Resume a session woken from a pause through the driver.
fn do_resume<D: ClaudeDriver>(
    driver: &mut D,
    entry: &mut TrackedSession,
    events: &mut Vec<SupervisorEvent>,
) -> (r: Result<(), SupervisorError>)
    requires
        old(entry).session.state@ == StateView::Resumed,
    ensures
        r is Ok ==> keeps_identity(*old(entry), *final(entry)) && final(entry).session.state@
            == StateView::Running && final(entry).handle == old(entry).handle
            && final(entry).session.last_log_line == old(entry).session.last_log_line && appended(
            old(events)@,
            final(events)@,
            old(entry).session.id.0@,
            seq![KindView::Started],
        ) && exists|ok: Result<(), DriverError>|
            #[trigger] old(driver).resume_answer(*final(driver), handle_id(*old(entry)), ok) && ok is Ok,
        r is Err ==> *final(entry) == *old(entry) && final(events)@ == old(events)@,
        r matches Err(e) ==> (e is Inconsistent <==> old(entry).handle is None),
        r matches Err(e) ==> fails_at(*old(driver), *old(entry), e),
{
    let handle = match &entry.handle {
        Some(h) => h.duplicate(),
        None => {
            return Err(
                SupervisorError::Inconsistent {
                    id: entry.session.id.duplicate(),
                    msg: "resumed without handle",
                },
            );
        },
    };
    let ghost d0 = *driver;
    let res = driver.resume(&handle);
    match res {
        Ok(()) => {
            assert(d0.resume_answer(*driver, handle_id(*entry), res));
            entry.session.transition(SessionState::Running);
            emit_for(events, &entry.session.id, SupervisorEventKind::Started);
            Ok(())
        },
        Err(e) => {
            let ghost err = e;
            let r = SupervisorError::Driver { id: entry.session.id.duplicate(), source: e };
            assert(d0.resume_answer(*driver, handle_id(*entry), Err(err)));
            Err(r)
        },
    }
}

/// Top-level supervisor. Owns the sessions; the driver is pluggable.
#[derive(Debug)]
#[non_exhaustive]
pub struct Supervisor<D: ClaudeDriver> {
    /// The driver used to spawn, poll, resume and kill sessions.
    pub driver: D,
    /// Recovery policy.
    pub policy: RecoveryPolicy,
    sessions: Vec<TrackedSession>,
    events: Vec<SupervisorEvent>,
}

impl<D: ClaudeDriver> Supervisor<D> {
    /// The tracked sessions, in enrolment order.
    pub closed spec fn entries(&self) -> Seq<TrackedSession> {
        self.sessions@
    }

    /// The driver.
    pub closed spec fn driver_view(&self) -> D {
        self.driver
    }

    /// The recovery policy.
    pub closed spec fn policy_view(&self) -> RecoveryPolicy {
        self.policy
    }

    /// The events recorded and not yet drained, oldest first.
    pub closed spec fn log(&self) -> Seq<SupervisorEvent> {
        self.events@
    }

    /// A supervisor with the default recovery policy.
    pub fn new(driver: D) -> (s: Self)
        ensures
            s.driver_view() == driver,
            s.policy_view().max_resumes == 6,
            s.policy_view().base_backoff@ == 15 * 1_000_000_000,
            s.policy_view().max_backoff@ == 900 * 1_000_000_000,
            s.entries() == Seq::<TrackedSession>::empty(),
            s.log() == Seq::<SupervisorEvent>::empty(),
    {
        Self::with_policy(driver, RecoveryPolicy::default())
    }

    /// A supervisor with a custom policy.
    pub fn with_policy(driver: D, policy: RecoveryPolicy) -> (s: Self)
        ensures
            s.driver_view() == driver,
            s.policy_view() == policy,
            s.entries() == Seq::<TrackedSession>::empty(),
            s.log() == Seq::<SupervisorEvent>::empty(),
    {
        Supervisor { driver, policy, sessions: Vec::new(), events: Vec::new() }
    }

    /// Add a session to the tracked set, recording a `Queued` event.
    pub fn enroll(&mut self, session: Session)
        ensures
            final(self).entries() == old(self).entries().push(
                TrackedSession { session: session, handle: None },
            ),
            appended(old(self).log(), final(self).log(), session.id.0@, seq![KindView::Queued]),
            final(self).driver_view() == old(self).driver_view(),
            final(self).policy_view() == old(self).policy_view(),
    {
        let id = session.id.duplicate();
        self.sessions.push(TrackedSession { session, handle: None });
        emit_for(&mut self.events, &id, SupervisorEventKind::Queued);
    }

    /// Take the recorded events, oldest first, leaving none.
    pub fn drain_events(&mut self) -> (r: Vec<SupervisorEvent>)
        ensures
            r@ == old(self).log(),
            final(self).log() == Seq::<SupervisorEvent>::empty(),
            final(self).entries() == old(self).entries(),
            final(self).driver_view() == old(self).driver_view(),
            final(self).policy_view() == old(self).policy_view(),
    {
        let mut out: Vec<SupervisorEvent> = Vec::new();
        std::mem::swap(&mut out, &mut self.events);
        out
    }

    /// Id, state and resume count of every session, in enrolment order.
    pub fn snapshot(&self) -> (r: Vec<(SessionId, SessionState, u32)>)
        ensures
            r@.len() == self.entries().len(),
            forall|i: int|
                0 <= i < r@.len() ==> (#[trigger] r@[i]).0 == self.entries()[i].session.id
                    && r@[i].1 == self.entries()[i].session.state && r@[i].2
                    == self.entries()[i].session.resume_count,
    {
        let mut out: Vec<(SessionId, SessionState, u32)> = Vec::new();
        let mut i: usize = 0;
        while i < self.sessions.len()
            invariant
                i <= self.sessions@.len(),
                out@.len() == i,
                forall|j: int|
                    0 <= j < i ==> (#[trigger] out@[j]).0 == self.sessions@[j].session.id
                        && out@[j].1 == self.sessions@[j].session.state && out@[j].2
                        == self.sessions@[j].session.resume_count,
            decreases self.sessions.len() - i,
        {
            let t = &self.sessions[i];
            out.push((t.session.id.duplicate(), t.session.state.duplicate(), t.session.resume_count));
            i = i + 1;
        }
        out
    }

    /// True when every session has reached a terminal state.
    pub fn is_done(&self) -> (r: bool)
        ensures
            r == forall|i: int|
                0 <= i < self.entries().len() ==> (#[trigger] self.entries()[i]).session.state@.terminal(),
    {
        let mut i: usize = 0;
        while i < self.sessions.len()
            invariant
                i <= self.sessions@.len(),
                forall|j: int| 0 <= j < i ==> (#[trigger] self.sessions@[j]).session.state@.terminal(),
            decreases self.sessions.len() - i,
        {
            if !self.sessions[i].session.state.is_terminal() {
                return false;
            }
            i = i + 1;
        }
        true
    }

    /// External wake: move the first paused session with this id into
    /// `Resumed`, counting one more resume. A session with the id that
    /// is not paused is left as it is; an unknown id is an error.
    pub fn wake(&mut self, id: &SessionId) -> (r: Result<(), SupervisorError>)
        ensures
            final(self).driver_view() == old(self).driver_view(),
            final(self).policy_view() == old(self).policy_view(),
            final(self).log() == old(self).log(),
            final(self).entries().len() == old(self).entries().len(),
            r is Ok <==> exists|k: int| is_first(old(self).entries(), id.0@, k),
            r matches Err(e) ==> (e matches SupervisorError::UnknownSession(u) && u.0@ == id.0@)
                && final(self).entries() == old(self).entries(),
            forall|k: int|
                is_first(old(self).entries(), id.0@, k) ==> woken(
                    old(self).entries()[k],
                    final(self).entries()[k],
                ) && forall|j: int|
                    0 <= j < old(self).entries().len() && j != k ==> final(self).entries()[j]
                        == old(self).entries()[j],
    {
        let mut i: usize = 0;
        while i < self.sessions.len()
            invariant
                i <= self.sessions@.len(),
                self.sessions@ == old(self).sessions@,
                self.events@ == old(self).events@,
                self.policy == old(self).policy,
                self.driver == old(self).driver,
                forall|j: int| 0 <= j < i ==> (#[trigger] self.sessions@[j]).session.id.0@ != id.0@,
            decreases self.sessions.len() - i,
        {
            if self.sessions[i].session.id.same_as(id) {
                let ghost before = self.sessions@;
                assert(is_first(before, id.0@, i as int));
                assert(is_first(old(self).entries(), id.0@, i as int));
                if self.sessions[i].session.state.is_paused() {
                    let entry = &mut self.sessions[i];
                    entry.session.transition(SessionState::Resumed);
                    entry.session.record_resume();
                }
                assert forall|k: int| is_first(before, id.0@, k) implies k == i by {
                    if k < i {
                        assert(before[k].session.id.0@ != id.0@);
                    }
                    if k > i {
                        assert(before[i as int].session.id.0@ != id.0@);
                    }
                }
                return Ok(());
            }
            i = i + 1;
        }
        assert forall|k: int| !is_first(self.sessions@, id.0@, k) by {
            if 0 <= k < self.sessions@.len() {
                assert(self.sessions@[k].session.id.0@ != id.0@);
            }
        }
        Err(SupervisorError::UnknownSession(id.duplicate()))
    }

    /// Step every non-terminal session once: a queued session is started,
    /// a running one is polled and the drained events applied, a resumed
    /// one is resumed; paused sessions wait for `wake`. The events of the
    /// step are recorded only when the whole step succeeds, session by
    /// session in enrolment order. A step that fails stops at the first
    /// session the driver failed.
    pub fn step(&mut self) -> (r: Result<(), SupervisorError>)
        ensures
            final(self).policy_view() == old(self).policy_view(),
            final(self).entries().len() == old(self).entries().len(),
            r is Ok ==> forall|i: int|
                0 <= i < old(self).entries().len() ==> stepped(
                    old(self).policy_view(),
                    #[trigger] old(self).entries()[i],
                    final(self).entries()[i],
                ),
            r is Ok ==> exists|ds: Seq<D>, kss: Seq<Seq<KindView>>|
                #[trigger] step_trace(
                    old(self).policy_view(),
                    old(self).entries(),
                    final(self).entries(),
                    ds,
                    kss,
                ) && ds[0] == old(self).driver_view() && ds.last() == final(self).driver_view()
                    && appended_each(
                    old(self).log(),
                    final(self).log(),
                    session_ids(old(self).entries()),
                    kss,
                ),
            r is Ok ==> final(self).log().len() >= old(self).log().len() && final(self).log().take(
                old(self).log().len() as int,
            ) == old(self).log(),
            r is Err ==> final(self).log() == old(self).log(),
            r is Err ==> forall|i: int|
                0 <= i < old(self).entries().len() ==> stepped(
                    old(self).policy_view(),
                    #[trigger] old(self).entries()[i],
                    final(self).entries()[i],
                ) || final(self).entries()[i] == old(self).entries()[i],
            r matches Err(e) ==> exists|k: int, d: D|
                0 <= k < old(self).entries().len() && #[trigger] fails_at(d, old(self).entries()[k], e),
    {
        let ghost start = self.sessions@;
        let ghost ids = session_ids(start);
        let policy = self.policy;
        let mut events: Vec<SupervisorEvent> = Vec::new();
        let ghost mut ds: Seq<D> = seq![self.driver];
        let ghost mut kss: Seq<Seq<KindView>> = Seq::empty();
        proof {
            assert(ids.take(0) =~= Seq::<Seq<char>>::empty());
        }
        let mut i: usize = 0;
        while i < self.sessions.len()
            invariant
                self.policy == policy,
                policy == old(self).policy,
                self.events@ == old(self).events@,
                self.sessions@.len() == start.len(),
                start == old(self).sessions@,
                ids == session_ids(start),
                i <= start.len(),
                forall|j: int| 0 <= j < i ==> stepped(policy, #[trigger] start[j], self.sessions@[j]),
                forall|j: int| i <= j < start.len() ==> #[trigger] self.sessions@[j] == start[j],
                ds.len() == i + 1,
                kss.len() == i,
                ds[0] == old(self).driver,
                ds[i as int] == self.driver,
                forall|j: int|
                    #![trigger kss[j]]
                    0 <= j < i ==> advanced(policy, ds[j], ds[j + 1], start[j], self.sessions@[j], kss[j]),
                appended_each(Seq::empty(), events@, ids.take(i as int), kss),
            decreases start.len() - i,
        {
            let ghost a = self.sessions@[i as int];
            let ghost d0 = self.driver;
            let ghost e0 = events@;
            let ghost mut ks: Seq<KindView> = Seq::empty();
            if !self.sessions[i].session.state.is_terminal() {
                let res = match &self.sessions[i].session.state {
                    SessionState::Queued => {
                        let r = start_session(&self.driver, &mut self.sessions[i], &mut events);
                        proof {
                            ks = seq![KindView::Started];
                        }
                        r
                    },
                    SessionState::Running => {
                        let r = poll_session(&mut self.driver, policy, &mut self.sessions[i], &mut events);
                        proof {
                            if r is Ok {
                                let v = choose|v: Vec<DriverEvent>|
                                    #[trigger] d0.poll_answer(self.driver, handle_id(a), Ok(v))
                                        && drained(
                                        policy,
                                        StateView::Running,
                                        opt_view(a.session.last_log_line),
                                        a.session.resume_count,
                                        v@,
                                    ) == (
                                        self.sessions@[i as int].session.state@,
                                        opt_view(self.sessions@[i as int].session.last_log_line),
                                    ) && appended(
                                        e0,
                                        events@,
                                        a.session.id.0@,
                                        drained_kinds(
                                            policy,
                                            StateView::Running,
                                            a.session.resume_count,
                                            v@,
                                        ),
                                    );
                                ks = drained_kinds(policy, StateView::Running, a.session.resume_count, v@);
                            }
                        }
                        r
                    },
                    SessionState::Resumed => {
                        let r = do_resume(&mut self.driver, &mut self.sessions[i], &mut events);
                        proof {
                            ks = seq![KindView::Started];
                        }
                        r
                    },
                    _ => {
                        proof {
                            lemma_appended_none(e0, a.session.id.0@);
                        }
                        Ok(())
                    },
                };
                if res.is_err() {
                    assert forall|j: int| 0 <= j < start.len() implies stepped(
                        policy,
                        #[trigger] start[j],
                        self.sessions@[j],
                    ) || self.sessions@[j] == start[j] by {
                        if j < i {
                            assert(stepped(policy, start[j], self.sessions@[j]));
                        } else {
                            assert(self.sessions@[j] == start[j]);
                        }
                    }
                    proof {
                        let e = res->Err_0;
                        assert(start == old(self).entries());
                        assert(fails_at(d0, old(self).entries()[i as int], e));
                    }
                    return res;
                }
            } else {
                proof {
                    lemma_appended_none(e0, a.session.id.0@);
                }
            }
            proof {
                assert(stepped(policy, a, self.sessions@[i as int]));
                assert(advanced(policy, d0, self.driver, a, self.sessions@[i as int], ks));
                assert(ids[i as int] == a.session.id.0@);
                lemma_appended_each_push(Seq::empty(), e0, events@, ids.take(i as int), kss, ids[i as int], ks);
                assert(ids.take(i as int).push(ids[i as int]) =~= ids.take(i + 1));
                ds = ds.push(self.driver);
                kss = kss.push(ks);
            }
            i = i + 1;
        }
        let ghost l0 = self.events@;
        let ghost ev = events@;
        self.events.append(&mut events);
        proof {
            assert(ids.take(i as int) =~= ids);
            lemma_appended_each_shift(l0, Seq::empty(), ev, ids, kss);
            assert(l0 + Seq::<SupervisorEvent>::empty() =~= l0);
            assert(start == old(self).entries());
            assert(step_trace(policy, old(self).entries(), self.entries(), ds, kss));
        }
        Ok(())
    }
}

impl Supervisor<MockDriver> {
    /// Script `event` on the mock driver for the next poll of `id`; the
    /// sessions and recorded events are untouched.
    pub fn script(&mut self, id: &SessionId, event: DriverEvent)
        ensures
            final(self).entries() == old(self).entries(),
            final(self).log() == old(self).log(),
            final(self).policy_view() == old(self).policy_view(),
            final(self).driver_view().queue() == old(self).driver_view().queue().push((id.0@, event)),
    {
        self.driver.script(id, event);
    }
}

/// A session in a terminal state is left exactly as it is by a step.
pub proof fn lemma_terminal_absorbing(policy: RecoveryPolicy, a: TrackedSession, b: TrackedSession)
    requires
        stepped(policy, a, b),
        a.session.state@.terminal(),
    ensures
        b == a,
{
}

/// A step never changes a session's resume count; only `wake` does.
pub proof fn lemma_step_keeps_resume_count(policy: RecoveryPolicy, a: TrackedSession, b: TrackedSession)
    requires
        stepped(policy, a, b),
    ensures
        b.session.resume_count == a.session.resume_count,
{
}

/// Applying driver events to a live session never puts it back in the
/// queue or in `Resumed`: it ends running, paused, done or failed.
pub proof fn lemma_drained_states(
    policy: RecoveryPolicy,
    state: StateView,
    last: Option<Seq<char>>,
    rc: u32,
    evs: Seq<DriverEvent>,
)
    requires
        state is Running || state is Paused,
    ensures
        ({
            let s = drained(policy, state, last, rc, evs).0;
            s is Running || s is Paused || s is Done || s is Failed
        }),
    decreases evs.len(),
{
    if evs.len() > 0 {
        let s2 = event_state(policy, state, rc, evs[0]);
        let l2 = event_log(last, evs[0]);
        if !stops_batch(s2) {
            lemma_drained_states(policy, s2, l2, rc, evs.drop_first());
        }
    }
}

/// Once the resume budget is spent, the next pause, whatever its
/// reason, fails the session and escalates.
pub proof fn lemma_pause_past_budget_escalates(
    policy: RecoveryPolicy,
    reason: PauseReason,
    rc: u32,
    last: Option<Seq<char>>,
)
    requires
        rc >= policy.max_resumes,
    ensures
        drained(policy, StateView::Running, last, rc, seq![DriverEvent::Paused { reason }])
            == (StateView::Failed(max_resumes_text()), last),
        drained_kinds(policy, StateView::Running, rc, seq![DriverEvent::Paused { reason }])
            == seq![
            KindView::Paused(reason),
            KindView::Escalated(max_resumes_text()),
            KindView::Terminal(TerminalOutcome::Failed),
        ],
{
    let evs = seq![DriverEvent::Paused { reason }];
    assert(evs[0] == DriverEvent::Paused { reason });
    assert(drained_kinds(policy, StateView::Running, rc, evs) =~= seq![
        KindView::Paused(reason),
        KindView::Escalated(max_resumes_text()),
        KindView::Terminal(TerminalOutcome::Failed),
    ]);
}

/// A pause the policy never recovers from (permission, blocked) fails
/// the session at once, within the resume budget too.
pub proof fn lemma_unrecoverable_pause_escalates(
    policy: RecoveryPolicy,
    reason: PauseReason,
    rc: u32,
    last: Option<Seq<char>>,
)
    requires
        !reason.recoverable(),
    ensures
        drained(policy, StateView::Running, last, rc, seq![DriverEvent::Paused { reason }]).0
            is Failed,
{
    let evs = seq![DriverEvent::Paused { reason }];
    assert(evs[0] == DriverEvent::Paused { reason });
}

/// Within the reason's budget, a recoverable pause leaves the session
/// paused and schedules a resume after the policy's delay for it.
pub proof fn lemma_recoverable_pause_schedules_resume(
    policy: RecoveryPolicy,
    reason: PauseReason,
    rc: u32,
    last: Option<Seq<char>>,
)
    requires
        reason.recoverable(),
        rc < policy.resume_budget(reason),
    ensures
        drained(policy, StateView::Running, last, rc, seq![DriverEvent::Paused { reason }])
            == (StateView::Paused(reason), last),
        drained_kinds(policy, StateView::Running, rc, seq![DriverEvent::Paused { reason }])
            == seq![
            KindView::Paused(reason),
            KindView::ResumeScheduled(policy.delay_for(reason, rc) / 1_000_000_000),
        ],
{
    let evs = seq![DriverEvent::Paused { reason }];
    assert(evs[0] == DriverEvent::Paused { reason });
    assert(evs.drop_first() =~= Seq::<DriverEvent>::empty());
    assert(drained(policy, StateView::Paused(reason), last, rc, evs.drop_first()) == (
    StateView::Paused(reason), last));
    assert(drained_kinds(policy, StateView::Paused(reason), rc, evs.drop_first()) =~= Seq::<
        KindView,
    >::empty());
    assert(drained_kinds(policy, StateView::Running, rc, evs) =~= seq![
        KindView::Paused(reason),
        KindView::ResumeScheduled(policy.delay_for(reason, rc) / 1_000_000_000),
    ]);
}

/// A pause ends the batch: the events drained after a pause are not
/// applied, so a paused session leaves its pause only through a wake
/// (or fails at once when the policy escalates).
pub proof fn lemma_pause_ends_batch(
    policy: RecoveryPolicy,
    reason: PauseReason,
    rc: u32,
    last: Option<Seq<char>>,
    rest: Seq<DriverEvent>,
)
    ensures
        drained(policy, StateView::Running, last, rc, seq![DriverEvent::Paused { reason }] + rest)
            == drained(policy, StateView::Running, last, rc, seq![DriverEvent::Paused { reason }]),
        drained_kinds(policy, StateView::Running, rc, seq![DriverEvent::Paused { reason }] + rest)
            == drained_kinds(policy, StateView::Running, rc, seq![DriverEvent::Paused { reason }]),
{
    let one = seq![DriverEvent::Paused { reason }];
    assert((one + rest)[0] == DriverEvent::Paused { reason });
    assert(one[0] == DriverEvent::Paused { reason });
    assert(stops_batch(event_state(policy, StateView::Running, rc, DriverEvent::Paused { reason })));
}

} // verus!
