//! Events of the agent CLI's `--output-format=stream-json` stream, and how each maps to
//! what the supervisor sees.
//!
//! Done-determination is not event-based: `message_stop` can occur many
//! times within one session. Only the child's exit status says whether a
//! session is done; this mapping is about the streaming lifecycle.

use vstd::prelude::*;

use crate::policy::PauseReason;
use crate::text::{chars_of, push_str, str_eq};

verus! {

/// Known `subtype` values of `type: "system"` events.
#[derive(Debug, Copy, Clone, PartialEq, Eq, Hash, Structural)]
#[non_exhaustive]
pub enum SystemSubtype {
    /// Session initialization; carries the agent-side session id.
    Init,
    /// Rate-limit or retryable-error indicator.
    ApiRetry,
    /// Plugin install progress.
    PluginInstall,
    /// Compaction boundary marker.
    CompactBoundary,
    /// Any other subtype.
    Other,
}

/// A `type: "system"` event, with the subtype-specific fields the
/// mapping reads.
#[derive(Debug, Clone)]
#[non_exhaustive]
pub struct SystemEvent {
    /// Variant identifier.
    pub subtype: SystemSubtype,
    /// Short uuid of the event.
    pub uuid: Option<String>,
    /// Agent-side session id.
    pub session_id: Option<String>,
    /// The `error` field, when it is a string.
    pub retry_error: Option<String>,
    /// The `retry_delay_ms` field, when it is an unsigned integer.
    pub retry_delay_ms: Option<u64>,
}

impl SystemEvent {
    /// A system event from its parts.
    pub fn new(
        subtype: SystemSubtype,
        uuid: Option<String>,
        session_id: Option<String>,
        retry_error: Option<String>,
        retry_delay_ms: Option<u64>,
    ) -> (e: Self)
        ensures
            e.subtype == subtype,
            e.uuid == uuid,
            e.session_id == session_id,
            e.retry_error == retry_error,
            e.retry_delay_ms == retry_delay_ms,
    {
        SystemEvent { subtype, uuid, session_id, retry_error, retry_delay_ms }
    }

    /// The `error` string of an `api_retry` event, if present.
    pub fn retry_error(&self) -> (r: Option<&str>)
        ensures
            r is None <==> self.retry_error is None,
            r matches Some(s) ==> self.retry_error matches Some(e) && s@ == e@,
    {
        match &self.retry_error {
            Some(e) => Some(e.as_str()),
            None => None,
        }
    }

    /// The `retry_delay_ms` of an `api_retry` event, if present.
    pub fn retry_delay_ms(&self) -> (r: Option<u64>)
        ensures
            r == self.retry_delay_ms,
    {
        self.retry_delay_ms
    }
}

/// The `delta` of a `content_block_delta` event.
#[derive(Debug, Clone)]
#[non_exhaustive]
pub enum ContentDelta {
    /// Streaming text from the assistant.
    TextDelta {
        /// New text fragment.
        text: String,
    },
    /// Streaming JSON for a tool's input.
    InputJsonDelta {
        /// New JSON fragment.
        partial_json: String,
    },
    /// Any other delta.
    Other,
}

/// The raw Anthropic API streaming events the mapping distinguishes.
#[derive(Debug, Clone)]
pub enum ApiStreamEvent {
    /// Beginning of a message.
    MessageStart,
    /// Beginning of a content block.
    ContentBlockStart {
        /// Block index.
        index: Option<u32>,
    },
    /// Incremental update to a content block.
    ContentBlockDelta {
        /// Block index.
        index: Option<u32>,
        /// Delta payload.
        delta: ContentDelta,
    },
    /// End of a content block.
    ContentBlockStop {
        /// Block index.
        index: Option<u32>,
    },
    /// Message-level update.
    MessageDelta,
    /// Message complete (not session complete).
    MessageStop,
    /// Any other event type.
    Other,
}

/// A `type: "stream_event"` line: metadata and the nested API event.
#[derive(Debug, Clone)]
#[non_exhaustive]
pub struct StreamEventOuter {
    /// Short uuid.
    pub uuid: Option<String>,
    /// Agent-side session id.
    pub session_id: Option<String>,
    /// Parent tool use id, for nested tool-use sequences.
    pub parent_tool_use_id: Option<String>,
    /// The raw API event.
    pub event: ApiStreamEvent,
}

impl StreamEventOuter {
    /// A stream event from its parts.
    pub fn new(
        uuid: Option<String>,
        session_id: Option<String>,
        parent_tool_use_id: Option<String>,
        event: ApiStreamEvent,
    ) -> (e: Self)
        ensures
            e.uuid == uuid,
            e.session_id == session_id,
            e.parent_tool_use_id == parent_tool_use_id,
            e.event == event,
    {
        StreamEventOuter { uuid, session_id, parent_tool_use_id, event }
    }
}

/// One NDJSON line of the stream.
#[derive(Debug, Clone)]
pub enum ClaudeEvent {
    /// `type: "system"`.
    System(SystemEvent),
    /// `type: "stream_event"`.
    StreamEvent(StreamEventOuter),
    /// Any other `type`.
    Other,
}

/// The part of a driver event a single stream line can produce (no
/// `Done` or `Failed`: those come from the child's exit status).
#[derive(Debug, Clone, PartialEq, Eq)]
pub enum MappedDriverEvent {
    /// A loggable line.
    Log {
        /// Line text.
        line: String,
    },
    /// A pause signal.
    Paused {
        /// Pause taxonomy.
        reason: PauseReason,
    },
}

/// What one stream line means to the supervisor.
#[derive(Debug, Clone, PartialEq, Eq)]
pub enum Mapped {
    /// Surface this as a supervisor-visible event.
    DriverEvent(MappedDriverEvent),
    /// Capture the agent-side session id (for `--resume`).
    SessionId(String),
    /// Skip the line.
    Skip,
}

/// What a mapping says, with its texts as characters.
pub enum MappedView {
    /// A log line.
    Log(Seq<char>),
    /// A pause.
    Paused(PauseReason),
    /// A session id to capture.
    SessionId(Seq<char>),
    /// Nothing.
    Skip,
}

impl View for Mapped {
    type V = MappedView;

    open spec fn view(&self) -> MappedView {
        match self {
            Mapped::DriverEvent(MappedDriverEvent::Log { line }) => MappedView::Log(line@),
            Mapped::DriverEvent(MappedDriverEvent::Paused { reason }) => MappedView::Paused(*reason),
            Mapped::SessionId(s) => MappedView::SessionId(s@),
            Mapped::Skip => MappedView::Skip,
        }
    }
}

/// The capture of an optional session id.
pub open spec fn capture(session_id: Option<String>) -> MappedView {
    match session_id {
        Some(id) => MappedView::SessionId(id@),
        None => MappedView::Skip,
    }
}

/// How a system event maps: `init` captures the session id; `api_retry`
/// pauses (for a rate limit when its error is `rate_limit`, as a
/// network problem otherwise); a compaction boundary pauses for
/// compaction; anything else is skipped.
pub open spec fn system_mapping(sys: SystemEvent) -> MappedView {
    match sys.subtype {
        SystemSubtype::Init => capture(sys.session_id),
        SystemSubtype::ApiRetry => MappedView::Paused(
            if sys.retry_error matches Some(e) && e@ == "rate_limit"@ {
                PauseReason::RateLimit
            } else {
                PauseReason::Network
            },
        ),
        SystemSubtype::CompactBoundary => MappedView::Paused(PauseReason::ContextCompaction),
        _ => MappedView::Skip,
    }
}

/// How a stream event maps: a non-empty text delta is logged as is, a
/// non-empty tool-input delta is logged after `(tool-input) `; anything
/// else captures the session id when the line carries one.
pub open spec fn stream_mapping(outer: StreamEventOuter) -> MappedView {
    match outer.event {
        ApiStreamEvent::ContentBlockDelta { delta: ContentDelta::TextDelta { text }, .. } => {
            if text@.len() == 0 {
                capture(outer.session_id)
            } else {
                MappedView::Log(text@)
            }
        },
        ApiStreamEvent::ContentBlockDelta {
            delta: ContentDelta::InputJsonDelta { partial_json },
            ..
        } => {
            if partial_json@.len() == 0 {
                capture(outer.session_id)
            } else {
                MappedView::Log("(tool-input) "@ + partial_json@)
            }
        },
        _ => capture(outer.session_id),
    }
}

/// The log line an event of an unknown type surfaces as.
pub open spec fn unknown_event_line() -> Seq<char> {
    "(unrecognized stream event)"@
}

/// How any stream line maps: an event of an unknown type surfaces as a
/// log line, so that a newer agent CLI's events are seen, not dropped.
pub open spec fn event_mapping(event: ClaudeEvent) -> MappedView {
    match event {
        ClaudeEvent::System(sys) => system_mapping(sys),
        ClaudeEvent::StreamEvent(outer) => stream_mapping(outer),
        ClaudeEvent::Other => MappedView::Log(unknown_event_line()),
    }
}

/// Capture an optional session id.
fn capture_exec(session_id: &Option<String>) -> (m: Mapped)
    ensures
        m@ == capture(*session_id),
{
    match session_id {
        Some(id) => Mapped::SessionId(id.clone()),
        None => Mapped::Skip,
    }
}

/// Map one parsed stream line to what the supervisor sees.
pub fn map_event(event: &ClaudeEvent) -> (m: Mapped)
    ensures
        m@ == event_mapping(*event),
{
    match event {
        ClaudeEvent::System(sys) => map_system(sys),
        ClaudeEvent::StreamEvent(outer) => map_stream(outer),
        ClaudeEvent::Other => {
            let line = "(unrecognized stream event)".to_string();
            Mapped::DriverEvent(MappedDriverEvent::Log { line })
        },
    }
}

/// Map a system event.
pub fn map_system(sys: &SystemEvent) -> (m: Mapped)
    ensures
        m@ == system_mapping(*sys),
{
    match sys.subtype {
        SystemSubtype::Init => capture_exec(&sys.session_id),
        SystemSubtype::ApiRetry => {
            let reason = match sys.retry_error() {
                Some(e) => if str_eq(e, "rate_limit") {
                    PauseReason::RateLimit
                } else {
                    PauseReason::Network
                },
                None => PauseReason::Network,
            };
            Mapped::DriverEvent(MappedDriverEvent::Paused { reason })
        },
        SystemSubtype::CompactBoundary => Mapped::DriverEvent(
            MappedDriverEvent::Paused { reason: PauseReason::ContextCompaction },
        ),
        SystemSubtype::PluginInstall | SystemSubtype::Other => Mapped::Skip,
    }
}

/// Map a stream event.
pub fn map_stream(outer: &StreamEventOuter) -> (m: Mapped)
    ensures
        m@ == stream_mapping(*outer),
{
    match &outer.event {
        ApiStreamEvent::ContentBlockDelta { delta: ContentDelta::TextDelta { text }, .. } => {
            if chars_of(text.as_str()).len() == 0 {
                return capture_exec(&outer.session_id);
            }
            Mapped::DriverEvent(MappedDriverEvent::Log { line: text.clone() })
        },
        ApiStreamEvent::ContentBlockDelta {
            delta: ContentDelta::InputJsonDelta { partial_json },
            ..
        } => {
            if chars_of(partial_json.as_str()).len() == 0 {
                return capture_exec(&outer.session_id);
            }
            let mut line = "(tool-input) ".to_string();
            push_str(&mut line, partial_json.as_str());
            Mapped::DriverEvent(MappedDriverEvent::Log { line })
        },
        _ => capture_exec(&outer.session_id),
    }
}

} // verus!
