//! The decisions of one realtime transcription session: what to do with
//! each command from the caller, each frame from the server and each
//! outcome of the sends and reconnections it asks for. The caller owns the
//! socket and the buffered audio and performs the actions.
use vstd::prelude::*;
use vstd::string::*;
use crate::text::{chars_of, ends_with, seq_ends_with, str_eq};
use crate::json::{json_field_at, JsonFieldView};
use crate::completion::{CloudError, CloudErrorView};
use crate::stt::{
    optional_text, rotatable_message_type, well_formed_message, RotatableError, ServerMessage,
};

verus! {

// ---------------------------------------------------------------------------
// Message types
// ---------------------------------------------------------------------------

/// How the session treats a server message type.
#[derive(Debug, Clone, Copy, PartialEq, Eq, Structural)]
pub enum MessageKind {
    SessionStarted,
    Partial,
    Committed,
    Rotate(RotatableError),
    Fatal,
    Ignored,
}

/// Error types that end the session.
pub open spec fn fatal_message_type(t: Seq<char>) -> bool {
    ||| t == "error"@
    ||| seq_ends_with(t, "_error"@)
    ||| t == "input_error"@
    ||| t == "chunk_size_exceeded"@
    ||| t == "insufficient_audio_activity"@
    ||| t == "session_time_limit_exceeded"@
    ||| t == "queue_overflow"@
    ||| t == "commit_throttled"@
    ||| t == "unaccepted_terms"@
    ||| t == "transcriber_error"@
}

pub open spec fn message_kind(t: Seq<char>) -> MessageKind {
    if t == "session_started"@ {
        MessageKind::SessionStarted
    } else if t == "partial_transcript"@ {
        MessageKind::Partial
    } else if t == "committed_transcript"@ || t == "committed_transcript_with_timestamps"@ {
        MessageKind::Committed
    } else if rotatable_message_type(t) is Some {
        MessageKind::Rotate(rotatable_message_type(t)->0)
    } else if fatal_message_type(t) {
        MessageKind::Fatal
    } else {
        MessageKind::Ignored
    }
}

pub fn classify_message_type(t: &str) -> (r: MessageKind)
    ensures
        r == message_kind(t@),
{
    if str_eq(t, "session_started") {
        return MessageKind::SessionStarted;
    }
    if str_eq(t, "partial_transcript") {
        return MessageKind::Partial;
    }
    if str_eq(t, "committed_transcript") || str_eq(t, "committed_transcript_with_timestamps") {
        return MessageKind::Committed;
    }
    if let Some(kind) = RotatableError::from_message_type(t) {
        return MessageKind::Rotate(kind);
    }
    let v = chars_of(t);
    let suffix = chars_of("_error");
    if str_eq(t, "error") || ends_with(&v, &suffix) || str_eq(t, "input_error") || str_eq(
        t,
        "chunk_size_exceeded",
    ) || str_eq(t, "insufficient_audio_activity") || str_eq(t, "session_time_limit_exceeded")
        || str_eq(t, "queue_overflow") || str_eq(t, "commit_throttled") || str_eq(
        t,
        "unaccepted_terms",
    ) || str_eq(t, "transcriber_error") {
        MessageKind::Fatal
    } else {
        MessageKind::Ignored
    }
}

// ---------------------------------------------------------------------------
// Re-sending after a reconnection
// ---------------------------------------------------------------------------

/// One send on a fresh connection.
#[derive(Debug, Clone, Copy, PartialEq, Eq, Structural)]
pub enum ResendStep {
    /// The buffered chunk with this index, as a non-committing audio message.
    Chunk(usize),
    /// The empty committing audio message.
    Commit,
}

/// What a fresh connection receives: every buffered chunk, in the order it
/// arrived and none committing, then the commit when one was asked for.
pub open spec fn resend_steps(buffered: nat, commit: bool) -> Seq<ResendStep> {
    Seq::new(buffered, |i: int| ResendStep::Chunk(i as usize)) + (if commit {
        seq![ResendStep::Commit]
    } else {
        Seq::empty()
    })
}

/// The sends that bring a fresh connection up to date.
pub fn resend_plan(buffered: usize, commit: bool) -> (r: Vec<ResendStep>)
    ensures
        r@ == resend_steps(buffered as nat, commit),
{
    let mut r: Vec<ResendStep> = Vec::new();
    let mut i: usize = 0;
    while i < buffered
        invariant
            i <= buffered,
            r@ == Seq::new(i as nat, |k: int| ResendStep::Chunk(k as usize)),
        decreases buffered - i,
    {
        r.push(ResendStep::Chunk(i));
        assert(r@ =~= Seq::new((i + 1) as nat, |k: int| ResendStep::Chunk(k as usize)));
        i += 1;
    }
    if commit {
        r.push(ResendStep::Commit);
    }
    assert(r@ =~= resend_steps(buffered as nat, commit));
    r
}

// ---------------------------------------------------------------------------
// State, events and actions
// ---------------------------------------------------------------------------

/// What the caller is doing on the session's behalf.
#[derive(Debug, Clone, Copy, PartialEq, Eq, Structural)]
pub enum Stage {
    /// Waiting for the next command or server frame.
    Listening,
    /// Sending the newest audio chunk.
    SendingChunk,
    /// Sending the buffered audio once the server announced the session.
    FlushingAfterStart,
    /// Sending the buffered audio before a commit.
    FlushingForCommit,
    /// Sending the final, committing chunk.
    SendingCommit,
    /// Moving to the next key, reconnecting and re-sending buffered audio.
    Reconnecting,
    /// Sending the committing chunk on a fresh connection.
    ResendingCommit,
    /// The session is over.
    Done,
}

/// Input to the session.
#[derive(Debug)]
pub enum SessionEvent {
    /// An audio chunk arrived and was appended to the buffer;
    /// `within_start_window` tells whether the wait for the server's
    /// `session_started` is still running.
    Audio { within_start_window: bool },
    /// The caller asks for the transcript.
    Commit,
    /// The caller went away.
    CommandsClosed,
    /// The server closed the socket.
    SocketClosed,
    /// Reading from the socket failed.
    SocketError(String),
    /// A text frame from the server.
    ServerText(String),
    /// A ping frame.
    Ping,
    /// Any other frame.
    OtherFrame,
    /// Outcome of a requested send (chunk, buffer flush or commit).
    SendOutcome(Result<(), CloudError>),
    /// Outcome of a requested reconnection.
    ReconnectOutcome(Result<(), CloudError>),
    /// Outcome of sending the commit on a fresh connection (error text).
    ResendOutcome(Result<(), String>),
}

/// What the caller should do next.
#[derive(Debug)]
pub enum SessionAction {
    /// Nothing; wait for the next event.
    Wait,
    /// Send the newest chunk, reconnecting once on failure.
    SendChunk,
    /// Send every buffered chunk in order, stopping at the first failure.
    Flush,
    /// Send the empty committing chunk, reconnecting once on failure.
    SendCommit,
    /// Record the error text against the current key, connect with the next
    /// key and re-send the buffered audio.
    Reconnect(String),
    /// Send the empty committing chunk on the fresh connection.
    ResendCommit,
    /// Pass a partial transcript on.
    Publish(String),
    /// Answer the ping.
    Pong,
    /// End the session: answer the pending commit, if any, and close the
    /// socket when asked.
    Finish { reply: Option<Result<String, CloudError>>, close: bool },
}

/// Session state.
#[derive(Debug)]
pub struct SessionState {
    started: bool,
    dead: bool,
    commit_pending: bool,
    last_error: Option<CloudError>,
    held: Option<String>,
    stage: Stage,
}

pub struct SessionView {
    /// The server announced the session, or buffered audio has been flushed.
    pub started: bool,
    /// A failure ended the stream; only a commit is still answered.
    pub dead: bool,
    /// A commit was sent and its transcript is awaited.
    pub commit_pending: bool,
    pub last_error: Option<CloudErrorView>,
    /// A transcript the server committed before the caller asked for it.
    pub held: Option<Seq<char>>,
    pub stage: Stage,
}

impl View for SessionState {
    type V = SessionView;

    closed spec fn view(&self) -> SessionView {
        SessionView {
            started: self.started,
            dead: self.dead,
            commit_pending: self.commit_pending,
            last_error: match self.last_error {
                Some(e) => Some(e@),
                None => None,
            },
            held: match self.held {
                Some(t) => Some(t@),
                None => None,
            },
            stage: self.stage,
        }
    }
}

pub enum EventView {
    Audio { within_start_window: bool },
    Commit,
    CommandsClosed,
    SocketClosed,
    SocketError(Seq<char>),
    ServerText(Seq<char>),
    Ping,
    OtherFrame,
    SendOutcome(Result<(), CloudErrorView>),
    ReconnectOutcome(Result<(), CloudErrorView>),
    ResendOutcome(Result<(), Seq<char>>),
}

pub open spec fn unit_result(r: Result<(), CloudError>) -> Result<(), CloudErrorView> {
    match r {
        Ok(()) => Ok(()),
        Err(e) => Err(e@),
    }
}

impl View for SessionEvent {
    type V = EventView;

    open spec fn view(&self) -> EventView {
        match self {
            SessionEvent::Audio { within_start_window } => EventView::Audio {
                within_start_window: *within_start_window,
            },
            SessionEvent::Commit => EventView::Commit,
            SessionEvent::CommandsClosed => EventView::CommandsClosed,
            SessionEvent::SocketClosed => EventView::SocketClosed,
            SessionEvent::SocketError(s) => EventView::SocketError(s@),
            SessionEvent::ServerText(s) => EventView::ServerText(s@),
            SessionEvent::Ping => EventView::Ping,
            SessionEvent::OtherFrame => EventView::OtherFrame,
            SessionEvent::SendOutcome(r) => EventView::SendOutcome(unit_result(*r)),
            SessionEvent::ReconnectOutcome(r) => EventView::ReconnectOutcome(unit_result(*r)),
            SessionEvent::ResendOutcome(r) => EventView::ResendOutcome(
                match r {
                    Ok(()) => Ok(()),
                    Err(s) => Err(s@),
                },
            ),
        }
    }
}

pub enum ActionView {
    Wait,
    SendChunk,
    Flush,
    SendCommit,
    Reconnect(Seq<char>),
    ResendCommit,
    Publish(Seq<char>),
    Pong,
    Finish { reply: Option<Result<Seq<char>, CloudErrorView>>, close: bool },
}

impl View for SessionAction {
    type V = ActionView;

    open spec fn view(&self) -> ActionView {
        match self {
            SessionAction::Wait => ActionView::Wait,
            SessionAction::SendChunk => ActionView::SendChunk,
            SessionAction::Flush => ActionView::Flush,
            SessionAction::SendCommit => ActionView::SendCommit,
            SessionAction::Reconnect(s) => ActionView::Reconnect(s@),
            SessionAction::ResendCommit => ActionView::ResendCommit,
            SessionAction::Publish(s) => ActionView::Publish(s@),
            SessionAction::Pong => ActionView::Pong,
            SessionAction::Finish { reply, close } => ActionView::Finish {
                reply: match reply {
                    Some(Ok(t)) => Some(Ok(t@)),
                    Some(Err(e)) => Some(Err(e@)),
                    None => None,
                },
                close: *close,
            },
        }
    }
}

// ---------------------------------------------------------------------------
// Transitions
// ---------------------------------------------------------------------------

pub open spec fn with_stage(s: SessionView, stage: Stage) -> SessionView {
    SessionView { stage, ..s }
}

pub open spec fn finish(
    s: SessionView,
    reply: Option<Result<Seq<char>, CloudErrorView>>,
    close: bool,
) -> (SessionView, ActionView) {
    (with_stage(s, Stage::Done), ActionView::Finish { reply, close })
}

/// A failure with no commit waiting: remember it and stop streaming.
pub open spec fn go_dead(s: SessionView, e: CloudErrorView) -> (SessionView, ActionView) {
    (
        SessionView { dead: true, last_error: Some(e), stage: Stage::Listening, ..s },
        ActionView::Wait,
    )
}

/// A failure: answer the pending commit with it, or remember it.
pub open spec fn fail(s: SessionView, e: CloudErrorView) -> (SessionView, ActionView) {
    if s.commit_pending {
        finish(s, Some(Err(e)), false)
    } else {
        go_dead(s, e)
    }
}

/// The commit once buffered audio is out: a transcript the server already
/// committed, else a remembered failure, else send the commit.
pub open spec fn commit_ready(s: SessionView) -> (SessionView, ActionView) {
    if s.held is Some {
        finish(SessionView { held: None, ..s }, Some(Ok(s.held->0)), true)
    } else if s.last_error is Some {
        finish(SessionView { last_error: None, ..s }, Some(Err(s.last_error->0)), false)
    } else {
        (
            SessionView { commit_pending: true, stage: Stage::SendingCommit, ..s },
            ActionView::SendCommit,
        )
    }
}

/// Reaction to a server text frame; frames that do not parse are ignored.
pub open spec fn on_server_text(s: SessionView, raw: Seq<char>) -> (SessionView, ActionView) {
    if !well_formed_message(raw) {
        (s, ActionView::Wait)
    } else {
        let t = match json_field_at(raw, "/message_type"@) {
            Ok(JsonFieldView::Text(x)) => x,
            _ => Seq::empty(),
        };
        let text = optional_text(json_field_at(raw, "/text"@))->0;
        let error = optional_text(json_field_at(raw, "/error"@))->0;
        match message_kind(t) {
            MessageKind::SessionStarted => if !s.started {
                (
                    SessionView { started: true, stage: Stage::FlushingAfterStart, ..s },
                    ActionView::Flush,
                )
            } else {
                (s, ActionView::Wait)
            },
            MessageKind::Partial => match text {
                Some(p) => (s, ActionView::Publish(p)),
                None => (s, ActionView::Wait),
            },
            MessageKind::Committed => {
                let transcript = match text {
                    Some(c) => c,
                    None => Seq::empty(),
                };
                if s.commit_pending {
                    finish(s, Some(Ok(transcript)), true)
                } else {
                    (SessionView { held: Some(transcript), ..s }, ActionView::Wait)
                }
            },
            MessageKind::Rotate(_) => (
                with_stage(s, Stage::Reconnecting),
                ActionView::Reconnect(
                    match error {
                        Some(m) => m,
                        None => t,
                    },
                ),
            ),
            MessageKind::Fatal => fail(
                s,
                CloudErrorView::Message(
                    match error {
                        Some(m) => m,
                        None => t,
                    },
                ),
            ),
            MessageKind::Ignored => (s, ActionView::Wait),
        }
    }
}

/// One step of the session.
pub open spec fn session_step(s: SessionView, e: EventView) -> (SessionView, ActionView) {
    match s.stage {
        Stage::Done => (s, ActionView::Wait),
        Stage::Listening => if s.dead {
            match e {
                EventView::Commit => finish(
                    SessionView { last_error: None, ..s },
                    Some(
                        Err(
                            match s.last_error {
                                Some(err) => err,
                                None => CloudErrorView::SessionClosed,
                            },
                        ),
                    ),
                    false,
                ),
                EventView::CommandsClosed => finish(s, None, false),
                _ => (s, ActionView::Wait),
            }
        } else {
            match e {
                EventView::CommandsClosed => if s.commit_pending {
                    finish(
                        SessionView { last_error: None, ..s },
                        Some(
                            Err(
                                match s.last_error {
                                    Some(err) => err,
                                    None => CloudErrorView::SessionClosed,
                                },
                            ),
                        ),
                        false,
                    )
                } else {
                    finish(s, None, false)
                },
                EventView::Audio { within_start_window } => if !s.started && within_start_window {
                    (s, ActionView::Wait)
                } else {
                    (with_stage(s, Stage::SendingChunk), ActionView::SendChunk)
                },
                EventView::Commit => if !s.started {
                    (with_stage(s, Stage::FlushingForCommit), ActionView::Flush)
                } else {
                    commit_ready(s)
                },
                EventView::SocketClosed => fail(
                    s,
                    CloudErrorView::WebSocket("WebSocket closed unexpectedly"@),
                ),
                EventView::SocketError(m) => fail(s, CloudErrorView::WebSocket(m)),
                EventView::ServerText(raw) => on_server_text(s, raw),
                EventView::Ping => (s, ActionView::Pong),
                _ => (s, ActionView::Wait),
            }
        },
        Stage::SendingChunk | Stage::FlushingAfterStart => match e {
            EventView::SendOutcome(Ok(())) => (with_stage(s, Stage::Listening), ActionView::Wait),
            EventView::SendOutcome(Err(err)) => go_dead(s, err),
            _ => (s, ActionView::Wait),
        },
        Stage::FlushingForCommit => match e {
            EventView::SendOutcome(Ok(())) => commit_ready(
                SessionView { started: true, stage: Stage::Listening, ..s },
            ),
            EventView::SendOutcome(Err(err)) => finish(s, Some(Err(err)), false),
            _ => (s, ActionView::Wait),
        },
        Stage::SendingCommit => match e {
            EventView::SendOutcome(Ok(())) => (with_stage(s, Stage::Listening), ActionView::Wait),
            EventView::SendOutcome(Err(err)) => finish(s, Some(Err(err)), false),
            _ => (s, ActionView::Wait),
        },
        Stage::Reconnecting => match e {
            EventView::ReconnectOutcome(Ok(())) => if s.commit_pending {
                (with_stage(s, Stage::ResendingCommit), ActionView::ResendCommit)
            } else {
                (SessionView { started: true, stage: Stage::Listening, ..s }, ActionView::Wait)
            },
            EventView::ReconnectOutcome(Err(err)) => fail(with_stage(s, Stage::Listening), err),
            _ => (s, ActionView::Wait),
        },
        Stage::ResendingCommit => match e {
            EventView::ResendOutcome(Ok(())) => (
                SessionView { started: true, stage: Stage::Listening, ..s },
                ActionView::Wait,
            ),
            EventView::ResendOutcome(Err(m)) => finish(
                s,
                Some(Err(CloudErrorView::WebSocket(m))),
                false,
            ),
            _ => (s, ActionView::Wait),
        },
    }
}

impl SessionState {
    /// A session whose connection was just established.
    pub fn new() -> (s: SessionState)
        ensures
            s@ == (SessionView {
                started: false,
                dead: false,
                commit_pending: false,
                last_error: None,
                held: None,
                stage: Stage::Listening,
            }),
    {
        SessionState {
            started: false,
            dead: false,
            commit_pending: false,
            last_error: None,
            held: None,
            stage: Stage::Listening,
        }
    }

    /// Has a failure ended the stream (only a commit is still answered)?
    pub fn is_dead(&self) -> (r: bool)
        ensures
            r == self@.dead,
    {
        self.dead
    }

    /// Has the session ended?
    pub fn is_done(&self) -> (r: bool)
        ensures
            r == (self@.stage == Stage::Done),
    {
        self.stage == Stage::Done
    }

    fn finish(&mut self, reply: Option<Result<String, CloudError>>, close: bool) -> (a:
        SessionAction)
        ensures
            (final(self)@, a@) == finish(
                old(self)@,
                match reply {
                    Some(Ok(t)) => Some(Ok(t@)),
                    Some(Err(e)) => Some(Err(e@)),
                    None => None,
                },
                close,
            ),
    {
        self.stage = Stage::Done;
        SessionAction::Finish { reply, close }
    }

    fn fail(&mut self, e: CloudError) -> (a: SessionAction)
        ensures
            (final(self)@, a@) == fail(old(self)@, e@),
    {
        if self.commit_pending {
            self.finish(Some(Err(e)), false)
        } else {
            self.dead = true;
            self.last_error = Some(e);
            self.stage = Stage::Listening;
            SessionAction::Wait
        }
    }

    fn commit_ready(&mut self) -> (a: SessionAction)
        ensures
            (final(self)@, a@) == commit_ready(old(self)@),
    {
        if let Some(t) = self.held.take() {
            return self.finish(Some(Ok(t)), true);
        }
        if let Some(e) = self.last_error.take() {
            return self.finish(Some(Err(e)), false);
        }
        self.commit_pending = true;
        self.stage = Stage::SendingCommit;
        SessionAction::SendCommit
    }

    fn on_server_text(&mut self, raw: String) -> (a: SessionAction)
        requires
            old(self)@.stage == Stage::Listening,
            !old(self)@.dead,
        ensures
            (final(self)@, a@) == on_server_text(old(self)@, raw@),
    {
        let m = match ServerMessage::parse(raw.as_str()) {
            Ok(m) => m,
            Err(_) => {
                return SessionAction::Wait;
            },
        };
        match classify_message_type(m.message_type.as_str()) {
            MessageKind::SessionStarted => {
                if !self.started {
                    self.started = true;
                    self.stage = Stage::FlushingAfterStart;
                    SessionAction::Flush
                } else {
                    SessionAction::Wait
                }
            },
            MessageKind::Partial => match m.text {
                Some(p) => SessionAction::Publish(p),
                None => SessionAction::Wait,
            },
            MessageKind::Committed => {
                let transcript = match m.text {
                    Some(c) => c,
                    None => String::new(),
                };
                if self.commit_pending {
                    self.finish(Some(Ok(transcript)), true)
                } else {
                    self.held = Some(transcript);
                    SessionAction::Wait
                }
            },
            MessageKind::Rotate(_) => {
                self.stage = Stage::Reconnecting;
                let text = match m.error {
                    Some(e) => e,
                    None => m.message_type,
                };
                SessionAction::Reconnect(text)
            },
            MessageKind::Fatal => {
                let text = match m.error {
                    Some(e) => e,
                    None => m.message_type,
                };
                self.fail(CloudError::msg(text))
            },
            MessageKind::Ignored => SessionAction::Wait,
        }
    }

    /// Take one event and say what to do next.
    pub fn step(&mut self, event: SessionEvent) -> (a: SessionAction)
        ensures
            (final(self)@, a@) == session_step(old(self)@, event@),
    {
        match self.stage {
            Stage::Done => SessionAction::Wait,
            Stage::Listening => {
                if self.dead {
                    match event {
                        SessionEvent::Commit => {
                            let err = match self.last_error.take() {
                                Some(e) => e,
                                None => CloudError::SessionClosed,
                            };
                            self.finish(Some(Err(err)), false)
                        },
                        SessionEvent::CommandsClosed => self.finish(None, false),
                        _ => SessionAction::Wait,
                    }
                } else {
                    match event {
                        SessionEvent::CommandsClosed => {
                            if self.commit_pending {
                                let err = match self.last_error.take() {
                                    Some(e) => e,
                                    None => CloudError::SessionClosed,
                                };
                                self.finish(Some(Err(err)), false)
                            } else {
                                self.finish(None, false)
                            }
                        },
                        SessionEvent::Audio { within_start_window } => {
                            if !self.started && within_start_window {
                                SessionAction::Wait
                            } else {
                                self.stage = Stage::SendingChunk;
                                SessionAction::SendChunk
                            }
                        },
                        SessionEvent::Commit => {
                            if !self.started {
                                self.stage = Stage::FlushingForCommit;
                                SessionAction::Flush
                            } else {
                                self.commit_ready()
                            }
                        },
                        SessionEvent::SocketClosed => self.fail(
                            CloudError::WebSocket(String::from_str("WebSocket closed unexpectedly")),
                        ),
                        SessionEvent::SocketError(m) => self.fail(CloudError::WebSocket(m)),
                        SessionEvent::ServerText(raw) => self.on_server_text(raw),
                        SessionEvent::Ping => SessionAction::Pong,
                        _ => SessionAction::Wait,
                    }
                }
            },
            Stage::SendingChunk | Stage::FlushingAfterStart => match event {
                SessionEvent::SendOutcome(Ok(())) => {
                    self.stage = Stage::Listening;
                    SessionAction::Wait
                },
                SessionEvent::SendOutcome(Err(err)) => {
                    self.dead = true;
                    self.last_error = Some(err);
                    self.stage = Stage::Listening;
                    SessionAction::Wait
                },
                _ => SessionAction::Wait,
            },
            Stage::FlushingForCommit => match event {
                SessionEvent::SendOutcome(Ok(())) => {
                    self.started = true;
                    self.stage = Stage::Listening;
                    self.commit_ready()
                },
                SessionEvent::SendOutcome(Err(err)) => self.finish(Some(Err(err)), false),
                _ => SessionAction::Wait,
            },
            Stage::SendingCommit => match event {
                SessionEvent::SendOutcome(Ok(())) => {
                    self.stage = Stage::Listening;
                    SessionAction::Wait
                },
                SessionEvent::SendOutcome(Err(err)) => self.finish(Some(Err(err)), false),
                _ => SessionAction::Wait,
            },
            Stage::Reconnecting => match event {
                SessionEvent::ReconnectOutcome(Ok(())) => {
                    if self.commit_pending {
                        self.stage = Stage::ResendingCommit;
                        SessionAction::ResendCommit
                    } else {
                        self.started = true;
                        self.stage = Stage::Listening;
                        SessionAction::Wait
                    }
                },
                SessionEvent::ReconnectOutcome(Err(err)) => {
                    self.stage = Stage::Listening;
                    self.fail(err)
                },
                _ => SessionAction::Wait,
            },
            Stage::ResendingCommit => match event {
                SessionEvent::ResendOutcome(Ok(())) => {
                    self.started = true;
                    self.stage = Stage::Listening;
                    SessionAction::Wait
                },
                SessionEvent::ResendOutcome(Err(m)) => self.finish(
                    Some(Err(CloudError::WebSocket(m))),
                    false,
                ),
                _ => SessionAction::Wait,
            },
        }
    }
}

/// After a failure the session sends no more audio: a dead session only
/// waits or finishes.
pub proof fn lemma_dead_session_sends_nothing(s: SessionView, e: EventView)
    requires
        s.dead,
        s.stage == Stage::Listening,
    ensures
        session_step(s, e).1 is Wait || session_step(s, e).1 is Finish,
{
}

/// A transcript the server committed early is what the caller's commit
/// receives, and the socket is closed.
pub proof fn lemma_held_transcript_answers_commit(s: SessionView)
    requires
        s.stage == Stage::Listening,
        !s.dead,
        s.started,
        s.held is Some,
    ensures
        session_step(s, EventView::Commit).1 == (ActionView::Finish {
            reply: Some(Ok(s.held->0)),
            close: true,
        }),
        session_step(s, EventView::Commit).0.stage == Stage::Done,
{
}

/// A finished session ignores everything.
pub proof fn lemma_done_is_final(s: SessionView, e: EventView)
    requires
        s.stage == Stage::Done,
    ensures
        session_step(s, e) == (s, ActionView::Wait),
{
}

} // verus!
