//! Outward-facing supervisor events: what an observer sees of the
//! sessions' progress.

use vstd::prelude::*;

use crate::policy::PauseReason;
use crate::session::{now_unix_nanos, SessionId};

verus! {

/// Terminal outcome label.
#[derive(Debug, Copy, Clone, PartialEq, Eq, Structural)]
#[non_exhaustive]
pub enum TerminalOutcome {
    /// The subprocess exited 0.
    Done,
    /// Anything else.
    Failed,
}

impl TerminalOutcome {
    /// The kebab-case label of an outcome.
    pub open spec fn label_spec(self) -> Seq<char> {
        match self {
            TerminalOutcome::Done => "done"@,
            TerminalOutcome::Failed => "failed"@,
        }
    }

    /// Kebab-case label (`done` or `failed`).
    pub fn label(self) -> (r: &'static str)
        ensures
            r@ == self.label_spec(),
    {
        match self {
            TerminalOutcome::Done => "done",
            TerminalOutcome::Failed => "failed",
        }
    }
}

/// Discriminator of a [`SupervisorEvent`].
#[derive(Debug, Clone, PartialEq, Eq)]
#[non_exhaustive]
pub enum SupervisorEventKind {
    /// Session entered the queue.
    Queued,
    /// Subprocess started (or restarted after a resume).
    Started,
    /// Subprocess emitted a log line.
    Log {
        /// Line text.
        line: String,
    },
    /// Session paused.
    Paused {
        /// Why.
        reason: PauseReason,
    },
    /// Supervisor scheduled a resume.
    ResumeScheduled {
        /// Backoff seconds.
        delay_seconds: u64,
    },
    /// Session escalated to a human.
    Escalated {
        /// Reason.
        reason: String,
    },
    /// Session reached a terminal state.
    Terminal {
        /// `done` or `failed`.
        outcome: TerminalOutcome,
    },
}

/// What an event kind says, with its texts as characters.
pub enum KindView {
    /// Session entered the queue.
    Queued,
    /// Subprocess started.
    Started,
    /// A log line.
    Log(Seq<char>),
    /// Session paused.
    Paused(PauseReason),
    /// Resume scheduled after this many seconds.
    ResumeScheduled(nat),
    /// Escalated with this reason.
    Escalated(Seq<char>),
    /// Terminal with this outcome.
    Terminal(TerminalOutcome),
}

impl View for SupervisorEventKind {
    type V = KindView;

    open spec fn view(&self) -> KindView {
        match self {
            SupervisorEventKind::Queued => KindView::Queued,
            SupervisorEventKind::Started => KindView::Started,
            SupervisorEventKind::Log { line } => KindView::Log(line@),
            SupervisorEventKind::Paused { reason } => KindView::Paused(*reason),
            SupervisorEventKind::ResumeScheduled { delay_seconds } => KindView::ResumeScheduled(
                *delay_seconds as nat,
            ),
            SupervisorEventKind::Escalated { reason } => KindView::Escalated(reason@),
            SupervisorEventKind::Terminal { outcome } => KindView::Terminal(*outcome),
        }
    }
}

impl SupervisorEventKind {
    /// The kebab-case tag of a kind.
    pub open spec fn tag_spec(self) -> Seq<char> {
        match self {
            SupervisorEventKind::Queued => "queued"@,
            SupervisorEventKind::Started => "started"@,
            SupervisorEventKind::Log { .. } => "log"@,
            SupervisorEventKind::Paused { .. } => "paused"@,
            SupervisorEventKind::ResumeScheduled { .. } => "resume-scheduled"@,
            SupervisorEventKind::Escalated { .. } => "escalated"@,
            SupervisorEventKind::Terminal { .. } => "terminal"@,
        }
    }

    /// The kebab-case tag JSON consumers match on.
    pub fn tag(&self) -> (r: &'static str)
        ensures
            r@ == self.tag_spec(),
    {
        match self {
            SupervisorEventKind::Queued => "queued",
            SupervisorEventKind::Started => "started",
            SupervisorEventKind::Log { .. } => "log",
            SupervisorEventKind::Paused { .. } => "paused",
            SupervisorEventKind::ResumeScheduled { .. } => "resume-scheduled",
            SupervisorEventKind::Escalated { .. } => "escalated",
            SupervisorEventKind::Terminal { .. } => "terminal",
        }
    }
}

/// One observable supervisor event.
#[derive(Debug, Clone, PartialEq, Eq)]
#[non_exhaustive]
pub struct SupervisorEvent {
    /// Which session the event pertains to (`None` for supervisor-wide).
    pub session: Option<SessionId>,
    /// What happened.
    pub kind: SupervisorEventKind,
    /// Wall-clock time of emission, in UNIX nanoseconds.
    pub at: i128,
}

impl SupervisorEvent {
    /// An event stamped with the current time.
    pub fn now(session: Option<SessionId>, kind: SupervisorEventKind) -> (e: Self)
        ensures
            e.session == session,
            e.kind == kind,
    {
        SupervisorEvent { session, kind, at: now_unix_nanos() }
    }
}

/// The kinds of a sequence of events, in order.
pub open spec fn kinds_of(evs: Seq<SupervisorEvent>) -> Seq<KindView> {
    evs.map_values(|e: SupervisorEvent| e.kind@)
}

/// The event pertains to the session `id`.
pub open spec fn about(e: SupervisorEvent, id: Seq<char>) -> bool {
    match e.session {
        Some(s) => s.0@ == id,
        None => false,
    }
}

/// Every event of `evs` pertains to the session `id`.
pub open spec fn all_about(evs: Seq<SupervisorEvent>, id: Seq<char>) -> bool {
    forall|k: int| 0 <= k < evs.len() ==> about(#[trigger] evs[k], id)
}

/// `after` is `before` followed by events about `id` whose kinds are
/// `kinds`.
pub open spec fn appended(
    before: Seq<SupervisorEvent>,
    after: Seq<SupervisorEvent>,
    id: Seq<char>,
    kinds: Seq<KindView>,
) -> bool {
    &&& after.len() == before.len() + kinds.len()
    &&& after.take(before.len() as int) == before
    &&& kinds_of(after.skip(before.len() as int)) == kinds
    &&& all_about(after.skip(before.len() as int), id)
}

/// Appending nothing.
pub proof fn lemma_appended_none(evs: Seq<SupervisorEvent>, id: Seq<char>)
    ensures
        appended(evs, evs, id, Seq::empty()),
{
    assert(evs.take(evs.len() as int) =~= evs);
    assert(kinds_of(evs.skip(evs.len() as int)) =~= Seq::<KindView>::empty());
}

/// Appending one event about `id`.
pub proof fn lemma_appended_push(evs: Seq<SupervisorEvent>, e: SupervisorEvent, id: Seq<char>)
    requires
        about(e, id),
    ensures
        appended(evs, evs.push(e), id, seq![e.kind@]),
{
    assert(evs.push(e).take(evs.len() as int) =~= evs);
    assert(evs.push(e).skip(evs.len() as int) =~= seq![e]);
    assert(kinds_of(seq![e]) =~= seq![e.kind@]);
}

/// Two appends in a row are one append of both kinds.
pub proof fn lemma_appended_trans(
    a: Seq<SupervisorEvent>,
    b: Seq<SupervisorEvent>,
    c: Seq<SupervisorEvent>,
    id: Seq<char>,
    k1: Seq<KindView>,
    k2: Seq<KindView>,
)
    requires
        appended(a, b, id, k1),
        appended(b, c, id, k2),
    ensures
        appended(a, c, id, k1 + k2),
{
    assert(c.take(a.len() as int) =~= b.take(a.len() as int));
    assert(c.skip(a.len() as int) =~= b.skip(a.len() as int) + c.skip(b.len() as int));
    assert(kinds_of(c.skip(a.len() as int)) =~= kinds_of(b.skip(a.len() as int)) + kinds_of(
        c.skip(b.len() as int),
    ));
    assert forall|k: int| 0 <= k < c.skip(a.len() as int).len() implies about(
        #[trigger] c.skip(a.len() as int)[k],
        id,
    ) by {
        if k < b.len() - a.len() {
            assert(c.skip(a.len() as int)[k] == b.skip(a.len() as int)[k]);
        } else {
            assert(c.skip(a.len() as int)[k] == c.skip(b.len() as int)[k - (b.len() - a.len())]);
        }
    }
}

/// `after` is `before` followed, for each `i` in order, by events about
/// `ids[i]` whose kinds are `kss[i]`.
pub open spec fn appended_each(
    before: Seq<SupervisorEvent>,
    after: Seq<SupervisorEvent>,
    ids: Seq<Seq<char>>,
    kss: Seq<Seq<KindView>>,
) -> bool
    decreases kss.len(),
{
    if kss.len() == 0 {
        ids.len() == 0 && after == before
    } else {
        let n = kss.last().len();
        &&& ids.len() == kss.len()
        &&& after.len() >= n
        &&& appended(after.take(after.len() - n), after, ids.last(), kss.last())
        &&& appended_each(before, after.take(after.len() - n), ids.drop_last(), kss.drop_last())
    }
}

/// One more append after a run of appends.
pub proof fn lemma_appended_each_push(
    a: Seq<SupervisorEvent>,
    b: Seq<SupervisorEvent>,
    c: Seq<SupervisorEvent>,
    ids: Seq<Seq<char>>,
    kss: Seq<Seq<KindView>>,
    id: Seq<char>,
    ks: Seq<KindView>,
)
    requires
        appended_each(a, b, ids, kss),
        appended(b, c, id, ks),
    ensures
        appended_each(a, c, ids.push(id), kss.push(ks)),
{
    assert(c.take(c.len() - ks.len()) =~= b);
    assert(ids.push(id).drop_last() =~= ids);
    assert(kss.push(ks).drop_last() =~= kss);
}

/// Appends stay appends behind a common prefix.
pub proof fn lemma_appended_shift(
    pre: Seq<SupervisorEvent>,
    b: Seq<SupervisorEvent>,
    c: Seq<SupervisorEvent>,
    id: Seq<char>,
    ks: Seq<KindView>,
)
    requires
        appended(b, c, id, ks),
    ensures
        appended(pre + b, pre + c, id, ks),
{
    assert((pre + c).take((pre + b).len() as int) =~= pre + b);
    assert((pre + c).skip((pre + b).len() as int) =~= c.skip(b.len() as int));
}

/// A run of appends stays one behind a common prefix.
pub proof fn lemma_appended_each_shift(
    pre: Seq<SupervisorEvent>,
    b: Seq<SupervisorEvent>,
    c: Seq<SupervisorEvent>,
    ids: Seq<Seq<char>>,
    kss: Seq<Seq<KindView>>,
)
    requires
        appended_each(b, c, ids, kss),
    ensures
        appended_each(pre + b, pre + c, ids, kss),
    decreases kss.len(),
{
    if kss.len() > 0 {
        let n = kss.last().len();
        let mid = c.take(c.len() - n);
        lemma_appended_shift(pre, mid, c, ids.last(), kss.last());
        lemma_appended_each_shift(pre, b, mid, ids.drop_last(), kss.drop_last());
        assert((pre + c).take((pre + c).len() - n) =~= pre + mid);
    }
}

} // verus!
