//! The decisions of the agent chat panel that do not depend on drawing: how
//! queued submissions proceed when an ACP agent is or is not available, what
//! "stop" does, how a runtime event is routed and what follows it, and the
//! scroll-to-bottom requests the renderer consumes.
use vstd::prelude::*;

use crate::composer::{contains_str, string_views};

verus! {

/// Whether a queued submission could be started.
#[derive(Clone, Copy, Debug, PartialEq, Eq, Structural)]
pub enum SubmissionStart {
    Started,
    RetryLater,
    Rejected,
}

/// Whether advancing a session's queue started something.
#[derive(Clone, Copy, Debug, PartialEq, Eq, Structural)]
pub enum PendingAdvance {
    Started,
    Blocked,
    Idle,
}

/// Errors an ACP connection reports when a prompt cannot start.
#[derive(Clone, Copy, Debug, PartialEq, Eq, Structural)]
pub enum AcpPromptStartError {
    AlreadyRunning,
    NotReady,
    ImageUnsupported,
}

/// Decides what happens to a queued submission when the ACP prompt fails to
/// start: a busy or unready agent is retried later, an unsupported image is
/// rejected.
pub fn submission_start_for_acp_error(error: AcpPromptStartError) -> (r: SubmissionStart)
    ensures
        r == (match error {
            AcpPromptStartError::ImageUnsupported => SubmissionStart::Rejected,
            _ => SubmissionStart::RetryLater,
        }),
{
    match error {
        AcpPromptStartError::AlreadyRunning | AcpPromptStartError::NotReady => {
            SubmissionStart::RetryLater
        },
        AcpPromptStartError::ImageUnsupported => SubmissionStart::Rejected,
    }
}

/// Whether a submission can go to the ACP agent now: `None` when it can; a
/// retry while the agent is connecting, authenticating, switching sessions
/// or can be reconnected; a rejection when there is no agent to reach.
pub fn submission_start_for_acp_availability(
    has_connection: bool,
    connecting: bool,
    authentication_pending: bool,
    session_transition_pending: bool,
    has_reconnect_target: bool,
) -> (r: Option<SubmissionStart>)
    ensures
        r == (if connecting || authentication_pending || session_transition_pending {
            Some(SubmissionStart::RetryLater)
        } else if has_connection {
            None
        } else if has_reconnect_target {
            Some(SubmissionStart::RetryLater)
        } else {
            Some(SubmissionStart::Rejected)
        }),
{
    if connecting || authentication_pending || session_transition_pending {
        return Some(SubmissionStart::RetryLater);
    }
    if has_connection {
        None
    } else if has_reconnect_target {
        Some(SubmissionStart::RetryLater)
    } else {
        Some(SubmissionStart::Rejected)
    }
}

/// The phase of creating an ACP session for the panel's session.
#[derive(Clone, Copy, Debug, PartialEq, Eq, Structural)]
pub enum AcpSessionTransitionPhase {
    Creating,
    Failed,
}

/// What "stop" does while an ACP agent drives the session.
#[derive(Clone, Copy, Debug, PartialEq, Eq, Structural)]
pub enum AcpStopAction {
    CancelActivePrompt,
    ReturnToLocal,
    AbandonFailedTransition,
    ClearQueueOnly,
}

/// Stop cancels the prompt the session owns on a live connection; while the
/// agent is still connecting, authenticating or creating its session it
/// returns to the local agent; a failed session creation is abandoned on a
/// live connection (and returns to local without one); otherwise only the
/// queue is cleared.
pub fn acp_stop_action(
    owns_current_turn: bool,
    has_connection: bool,
    connecting: bool,
    authentication_pending: bool,
    session_transition: Option<AcpSessionTransitionPhase>,
) -> (r: AcpStopAction)
    ensures
        r == (if owns_current_turn && has_connection {
            AcpStopAction::CancelActivePrompt
        } else if connecting || authentication_pending || session_transition == Some(
            AcpSessionTransitionPhase::Creating,
        ) {
            AcpStopAction::ReturnToLocal
        } else if session_transition == Some(AcpSessionTransitionPhase::Failed) {
            if has_connection {
                AcpStopAction::AbandonFailedTransition
            } else {
                AcpStopAction::ReturnToLocal
            }
        } else {
            AcpStopAction::ClearQueueOnly
        }),
{
    if owns_current_turn && has_connection {
        return AcpStopAction::CancelActivePrompt;
    }
    let creating = match session_transition {
        Some(AcpSessionTransitionPhase::Creating) => true,
        _ => false,
    };
    if connecting || authentication_pending || creating {
        return AcpStopAction::ReturnToLocal;
    }
    match session_transition {
        Some(AcpSessionTransitionPhase::Failed) => if has_connection {
            AcpStopAction::AbandonFailedTransition
        } else {
            AcpStopAction::ReturnToLocal
        },
        _ => AcpStopAction::ClearQueueOnly,
    }
}

/// The session whose queue "stop" clears: returning to the local agent
/// clears the session the connection attempt started from.
pub fn stopped_session_uid(action: AcpStopAction, origin: &Option<String>, session_uid: &str) -> (r:
    String)
    ensures
        r@ == (if action == AcpStopAction::ReturnToLocal && origin is Some {
            origin->0@
        } else {
            session_uid@
        }),
{
    match (action, origin) {
        (AcpStopAction::ReturnToLocal, Some(o)) => o.clone(),
        _ => session_uid.to_owned(),
    }
}

/// The life cycle of an ACP connection.
#[derive(Clone, Debug)]
pub enum AcpConnectionPhase {
    Ready,
    RunningTurn { turn_id: String },
    Failed { message: String },
    Closed,
}

/// The queue moves on after a turn only while the connection is ready.
pub fn acp_terminal_allows_queue_advance(phase: Option<&AcpConnectionPhase>) -> (r: bool)
    ensures
        r == (phase matches Some(AcpConnectionPhase::Ready)),
{
    match phase {
        Some(AcpConnectionPhase::Ready) => true,
        _ => false,
    }
}

/// A failed or closed connection can no longer be used.
pub fn acp_connection_is_unavailable(phase: Option<&AcpConnectionPhase>) -> (r: bool)
    ensures
        r == (phase matches Some(AcpConnectionPhase::Failed { .. }) || phase matches Some(
            AcpConnectionPhase::Closed,
        )),
{
    match phase {
        Some(AcpConnectionPhase::Failed { .. }) => true,
        Some(AcpConnectionPhase::Closed) => true,
        _ => false,
    }
}

/// Which agent drives the panel: the built-in one or an external ACP agent.
#[derive(Clone, Copy, Debug, PartialEq, Eq, Structural)]
pub enum Backend {
    Local,
    Acp,
}

/// A local task keeps running in the background when the user switches
/// sessions; an ACP task is stopped first.
pub fn should_stop_task_before_session_switch(backend: Backend) -> (r: bool)
    ensures
        r == (backend == Backend::Acp),
{
    match backend {
        Backend::Acp => true,
        Backend::Local => false,
    }
}

/// The turn an ACP agent is running and the panel session it belongs to.
#[derive(Clone, Debug)]
pub struct AcpTurnOwner {
    pub event_session_id: String,
    pub session_uid: String,
    pub turn_id: String,
    pub cancel_requested: bool,
}

impl AcpTurnOwner {
    /// Records a cancellation request for the owner's session, once, and
    /// only with a live connection; `true` when the request is new.
    pub fn mark_cancel_requested(&mut self, session_uid: &str, has_connection: bool) -> (r: bool)
        ensures
            r == (has_connection && old(self).session_uid@ == session_uid@
                && !old(self).cancel_requested),
            final(self).cancel_requested == (old(self).cancel_requested || r),
            final(self).session_uid == old(self).session_uid,
            final(self).event_session_id == old(self).event_session_id,
            final(self).turn_id == old(self).turn_id,
    {
        if !has_connection || !crate::text::str_eq(self.session_uid.as_str(), session_uid)
            || self.cancel_requested {
            return false;
        }
        self.cancel_requested = true;
        true
    }
}

/// The panel session an event belongs to, or `None` when it is dropped: a
/// local event of a stopped turn is dropped; an ACP event goes to the owner
/// of the running turn when it matches the owner's session and turn.
pub fn route_runtime_event(
    backend: Backend,
    event_session_id: &str,
    event_turn_id: &str,
    turn_ignored: bool,
    owner: Option<&AcpTurnOwner>,
) -> (r: Option<String>)
    ensures
        match backend {
            Backend::Local => if turn_ignored {
                r is None
            } else {
                r is Some && r->0@ == event_session_id@
            },
            Backend::Acp => match owner {
                Some(o) => if o.event_session_id@ == event_session_id@ && o.turn_id@
                    == event_turn_id@ {
                    r is Some && r->0@ == o.session_uid@
                } else {
                    r is None
                },
                None => r is None,
            },
        },
{
    match backend {
        Backend::Local => if turn_ignored {
            None
        } else {
            Some(event_session_id.to_owned())
        },
        Backend::Acp => match owner {
            Some(o) => if crate::text::str_eq(o.event_session_id.as_str(), event_session_id)
                && crate::text::str_eq(o.turn_id.as_str(), event_turn_id) {
                Some(o.session_uid.clone())
            } else {
                None
            },
            None => None,
        },
    }
}

/// The kind of a runtime event, as far as the panel's bookkeeping cares.
#[derive(Clone, Copy, Debug, PartialEq, Eq, Structural)]
pub enum EventKind {
    /// The agent waits for the user; `tool_approval` when a tool call
    /// waits for approval.
    NeedUserInput { tool_approval: bool },
    TurnCompleted,
    TurnFailed,
    TurnCancelled,
    Other,
}

pub open spec fn is_real_terminal(kind: EventKind) -> bool {
    kind == EventKind::TurnCompleted || kind == EventKind::TurnFailed || kind
        == EventKind::TurnCancelled
}

/// What the panel does after routing an event to a session.
#[derive(Clone, Copy, Debug, PartialEq, Eq, Structural)]
pub struct EventEffects {
    /// The event goes into the session's transcript.
    pub apply_to_transcript: bool,
    /// The session stops showing as running.
    pub clears_running: bool,
    /// Pending ACP permission requests are cancelled.
    pub cancels_acp_permissions: bool,
    /// The ACP turn owner is released.
    pub releases_turn_owner: bool,
    /// The ACP connection is dropped as unusable.
    pub invalidates_connection: bool,
    /// The session is saved and the session list reloaded.
    pub persists_session: bool,
    /// The next queued submission is started.
    pub advances_queue: bool,
    /// The view follows the output down to the bottom.
    pub scrolls_to_bottom: bool,
    /// The view keeps following for a few more frames while it settles.
    pub settles_scroll: bool,
}

pub open spec fn event_effects(
    backend: Backend,
    kind: EventKind,
    connection_ready: bool,
    connection_unavailable: bool,
    session_closed: bool,
    is_current_session: bool,
    applied: bool,
) -> EventEffects {
    let acp_terminal = backend == Backend::Acp && is_real_terminal(kind);
    if session_closed {
        EventEffects {
            apply_to_transcript: false,
            clears_running: acp_terminal,
            cancels_acp_permissions: acp_terminal,
            releases_turn_owner: acp_terminal,
            invalidates_connection: acp_terminal && connection_unavailable,
            persists_session: false,
            advances_queue: acp_terminal && connection_ready,
            scrolls_to_bottom: false,
            settles_scroll: false,
        }
    } else if !applied {
        EventEffects {
            apply_to_transcript: true,
            clears_running: false,
            cancels_acp_permissions: false,
            releases_turn_owner: false,
            invalidates_connection: false,
            persists_session: false,
            advances_queue: false,
            scrolls_to_bottom: false,
            settles_scroll: false,
        }
    } else {
        let need_input = kind matches EventKind::NeedUserInput { .. };
        let approval = kind matches EventKind::NeedUserInput { tool_approval } && tool_approval;
        let clears = is_real_terminal(kind) || (backend == Backend::Local && need_input
            && !approval);
        EventEffects {
            apply_to_transcript: true,
            clears_running: clears,
            cancels_acp_permissions: clears && acp_terminal,
            releases_turn_owner: clears && acp_terminal,
            invalidates_connection: acp_terminal && connection_unavailable,
            persists_session: backend == Backend::Local && (clears || need_input),
            advances_queue: match backend {
                Backend::Local => kind == EventKind::TurnCompleted || kind == EventKind::TurnFailed,
                Backend::Acp => is_real_terminal(kind) && connection_ready,
            },
            scrolls_to_bottom: is_current_session,
            settles_scroll: clears && is_current_session,
        }
    }
}

/// What the panel does after an event, field by field.  It saves the
/// session exactly for the local agent, in an open session, once the
/// transcript took an event that ends the turn (completed, failed or
/// cancelled) or asks the user something; ACP and closed sessions are never
/// saved here.  The running state stops when the transcript took the end of
/// a turn or, for the local agent, a question that is not a tool approval,
/// and for a closed session only at the end of an ACP turn.  The queue moves
/// on for the local agent after a completed or failed turn (not a cancelled
/// one), for ACP after any end of a turn while the connection is ready.  An
/// event the transcript refused changes nothing but being offered to it.
pub proof fn lemma_event_effects_after_routing(
    backend: Backend,
    kind: EventKind,
    connection_ready: bool,
    connection_unavailable: bool,
    session_closed: bool,
    is_current_session: bool,
    applied: bool,
)
    ensures
        ({
            let e = event_effects(
                backend,
                kind,
                connection_ready,
                connection_unavailable,
                session_closed,
                is_current_session,
                applied,
            );
            let ends_turn = kind == EventKind::TurnCompleted || kind == EventKind::TurnFailed
                || kind == EventKind::TurnCancelled;
            let taken = !session_closed && applied;
            &&& e.apply_to_transcript <==> !session_closed
            &&& e.persists_session <==> (backend == Backend::Local && taken && (ends_turn
                || kind is NeedUserInput))
            &&& e.clears_running <==> ((taken && (ends_turn || (backend == Backend::Local
                && kind == (EventKind::NeedUserInput { tool_approval: false })))) || (
            session_closed && backend == Backend::Acp && ends_turn))
            &&& e.advances_queue <==> (match backend {
                Backend::Local => taken && (kind == EventKind::TurnCompleted || kind
                    == EventKind::TurnFailed),
                Backend::Acp => (taken || session_closed) && ends_turn && connection_ready,
            })
            &&& e.releases_turn_owner <==> (backend == Backend::Acp && ends_turn && (taken
                || session_closed))
            &&& e.cancels_acp_permissions <==> e.releases_turn_owner
            &&& e.invalidates_connection <==> (backend == Backend::Acp && ends_turn && (taken
                || session_closed) && connection_unavailable)
            &&& e.scrolls_to_bottom <==> (taken && is_current_session)
            &&& e.settles_scroll <==> (e.clears_running && taken && is_current_session)
        }),
{
}

/// What follows an event routed to a session.  For a closed session only
/// the end of an ACP turn matters (the agent is released and the queue may
/// move on); otherwise the event goes into the transcript and, when the
/// transcript took it, the end of a turn (or, for the local agent, a plain
/// question to the user) stops the running state, saves local sessions and
/// advances the queue.  `connection_ready` and `connection_unavailable`
/// describe the ACP connection when the event arrives; `applied` is what the
/// transcript answered.
pub fn runtime_event_effects(
    backend: Backend,
    kind: EventKind,
    connection_ready: bool,
    connection_unavailable: bool,
    session_closed: bool,
    is_current_session: bool,
    applied: bool,
) -> (r: EventEffects)
    ensures
        r == event_effects(
            backend,
            kind,
            connection_ready,
            connection_unavailable,
            session_closed,
            is_current_session,
            applied,
        ),
{
    let real_terminal = match kind {
        EventKind::TurnCompleted | EventKind::TurnFailed | EventKind::TurnCancelled => true,
        _ => false,
    };
    let is_acp = match backend {
        Backend::Acp => true,
        Backend::Local => false,
    };
    let acp_terminal = is_acp && real_terminal;
    if session_closed {
        return EventEffects {
            apply_to_transcript: false,
            clears_running: acp_terminal,
            cancels_acp_permissions: acp_terminal,
            releases_turn_owner: acp_terminal,
            invalidates_connection: acp_terminal && connection_unavailable,
            persists_session: false,
            advances_queue: acp_terminal && connection_ready,
            scrolls_to_bottom: false,
            settles_scroll: false,
        };
    }
    if !applied {
        return EventEffects {
            apply_to_transcript: true,
            clears_running: false,
            cancels_acp_permissions: false,
            releases_turn_owner: false,
            invalidates_connection: false,
            persists_session: false,
            advances_queue: false,
            scrolls_to_bottom: false,
            settles_scroll: false,
        };
    }
    let (need_input, approval) = match kind {
        EventKind::NeedUserInput { tool_approval } => (true, tool_approval),
        _ => (false, false),
    };
    let clears = real_terminal || (!is_acp && need_input && !approval);
    let advances = if is_acp {
        real_terminal && connection_ready
    } else {
        match kind {
            EventKind::TurnCompleted | EventKind::TurnFailed => true,
            _ => false,
        }
    };
    EventEffects {
        apply_to_transcript: true,
        clears_running: clears,
        cancels_acp_permissions: clears && acp_terminal,
        releases_turn_owner: clears && acp_terminal,
        invalidates_connection: acp_terminal && connection_unavailable,
        persists_session: !is_acp && (clears || need_input),
        advances_queue: advances,
        scrolls_to_bottom: is_current_session,
        settles_scroll: clears && is_current_session,
    }
}


pub open spec fn frames_after_request(pending: nat, frames: nat) -> nat {
    if pending < frames {
        frames
    } else {
        pending
    }
}

pub open spec fn frames_after_take(pending: nat) -> nat {
    if pending > 0 {
        (pending - 1) as nat
    } else {
        0
    }
}

/// The pending frames after `k` renders took from `pending`.
pub open spec fn frames_after_takes(pending: nat, k: nat) -> nat
    decreases k,
{
    if k == 0 {
        pending
    } else {
        frames_after_take(frames_after_takes(pending, (k - 1) as nat))
    }
}

/// After a request for `n` frames on `p` pending ones, and no further
/// request, the next `max(p, n)` renders scroll and every later one does not.
pub proof fn lemma_requested_frames_are_consumed_in_order(p: nat, n: nat, k: nat)
    ensures
        (frames_after_takes(frames_after_request(p, n), k) > 0) == (k < frames_after_request(p, n)),
    decreases k,
{
    lemma_frames_after_takes(frames_after_request(p, n), k);
}

proof fn lemma_frames_after_takes(f: nat, k: nat)
    ensures
        frames_after_takes(f, k) == if k < f {
            (f - k) as nat
        } else {
            0nat
        },
    decreases k,
{
    if k > 0 {
        lemma_frames_after_takes(f, (k - 1) as nat);
    }
}

/// Frames for which the message list keeps scrolling to the bottom.
#[derive(Clone, Copy, Debug)]
pub struct AutoScrollState {
    pub pending_bottom_scroll_frames: usize,
}

impl AutoScrollState {
    /// No scroll pending.
    pub fn new() -> (r: Self)
        ensures
            r.pending_bottom_scroll_frames == 0,
    {
        AutoScrollState { pending_bottom_scroll_frames: 0 }
    }

    /// Follow new output for two frames.
    pub fn request(&mut self)
        ensures
            final(self).pending_bottom_scroll_frames == if old(self).pending_bottom_scroll_frames
                < 2 {
                2
            } else {
                old(self).pending_bottom_scroll_frames
            },
    {
        self.request_frames(2);
    }

    /// Follow the end of a turn for five frames, while the layout settles.
    pub fn request_settle(&mut self)
        ensures
            final(self).pending_bottom_scroll_frames == if old(self).pending_bottom_scroll_frames
                < 5 {
                5
            } else {
                old(self).pending_bottom_scroll_frames
            },
    {
        self.request_frames(5);
    }

    /// Keeps scrolling for at least `frames` frames.
    pub fn request_frames(&mut self, frames: usize)
        ensures
            final(self).pending_bottom_scroll_frames == frames_after_request(
                old(self).pending_bottom_scroll_frames as nat,
                frames as nat,
            ),
    {
        if self.pending_bottom_scroll_frames < frames {
            self.pending_bottom_scroll_frames = frames;
        }
    }

    /// Consumes one pending frame; `true` when the render should scroll.
    pub fn take_pending_for_render(&mut self) -> (r: bool)
        ensures
            r == (old(self).pending_bottom_scroll_frames > 0),
            final(self).pending_bottom_scroll_frames == frames_after_take(
                old(self).pending_bottom_scroll_frames as nat,
            ),
    {
        if self.pending_bottom_scroll_frames == 0 {
            return false;
        }
        self.pending_bottom_scroll_frames = self.pending_bottom_scroll_frames - 1;
        true
    }
}

impl Default for AutoScrollState {
    fn default() -> (r: Self)
        ensures
            r.pending_bottom_scroll_frames == 0,
    {
        AutoScrollState { pending_bottom_scroll_frames: 0 }
    }
}

/// The actions of the panel header in sidebar mode, in order.
pub fn sidebar_mode_header_action_ids(show_frame_controls: bool) -> (r: Vec<&'static str>)
    ensures
        r@.len() == if show_frame_controls {
            4int
        } else {
            3int
        },
        r@[0]@ == "new"@,
        r@[1]@ == "history"@,
        show_frame_controls ==> r@[2]@ == "frame-options"@,
        r@[r@.len() - 1]@ == "close"@,
{
    let mut ids: Vec<&'static str> = Vec::new();
    ids.push("new");
    ids.push("history");
    if show_frame_controls {
        ids.push("frame-options");
    }
    ids.push("close");
    ids
}

/// The sessions whose queues may start after an ACP turn of `origin` ends:
/// the origin unless it was closed, then the open session when it differs
/// from the origin and is not closed.
pub fn acp_pending_schedule_candidates(
    origin_session_uid: &str,
    current_session: &str,
    closed_sessions: &Vec<String>,
) -> (r: Vec<String>)
    ensures
        string_views(r@) == {
            let closed = string_views(closed_sessions@);
            let first = if closed.contains(origin_session_uid@) {
                Seq::<Seq<char>>::empty()
            } else {
                seq![origin_session_uid@]
            };
            if origin_session_uid@ != current_session@ && !closed.contains(current_session@) {
                first.push(current_session@)
            } else {
                first
            }
        },
{
    let mut candidates: Vec<String> = Vec::new();
    if !contains_str(closed_sessions, origin_session_uid) {
        candidates.push(origin_session_uid.to_owned());
    }
    if !crate::text::str_eq(origin_session_uid, current_session) && !contains_str(
        closed_sessions,
        current_session,
    ) {
        candidates.push(current_session.to_owned());
    }
    proof {
        let closed = string_views(closed_sessions@);
        let first = if closed.contains(origin_session_uid@) {
            Seq::<Seq<char>>::empty()
        } else {
            seq![origin_session_uid@]
        };
        if origin_session_uid@ != current_session@ && !closed.contains(current_session@) {
            assert(string_views(candidates@) =~= first.push(current_session@));
        } else {
            assert(string_views(candidates@) =~= first);
        }
    }
    candidates
}

/// What the panel knows of its ACP agent when the user asks for one.
pub struct AcpAgentStatus {
    pub backend: Backend,
    pub current_acp_id: Option<String>,
    pub has_connection: bool,
    pub connecting: bool,
    pub has_pending_connect: bool,
    pub has_turn_owner: bool,
    pub has_session_transition: bool,
    pub current_session_closed: bool,
}

/// The user may reconnect the ACP agent the open session used when its
/// connection is gone and nothing is connecting, queued for connection,
/// running or being created, and the session is not closed.
pub fn can_retry_disconnected_acp(status: &AcpAgentStatus, requested_id: &str) -> (r: bool)
    ensures
        r == (status.backend == Backend::Acp && crate::cards::opt_view(status.current_acp_id) == Some(
            requested_id@,
        ) && !status.has_connection && !status.connecting && !status.has_pending_connect
            && !status.has_turn_owner && !status.has_session_transition
            && !status.current_session_closed),
{
    status.backend == Backend::Acp && match &status.current_acp_id {
        Some(id) => crate::text::str_eq(id.as_str(), requested_id),
        None => false,
    } && !status.has_connection && !status.connecting && !status.has_pending_connect
        && !status.has_turn_owner && !status.has_session_transition && !status.current_session_closed
}

/// The backend may change only when no session runs, and only with an empty
/// queue unless the request reconnects the disconnected ACP agent.
pub fn can_select_backend(
    status: &AcpAgentStatus,
    agent_id: Option<&str>,
    no_running_sessions: bool,
    no_pending_submissions: bool,
) -> (r: bool)
    ensures
        r == (no_running_sessions && (no_pending_submissions || match agent_id {
            Some(id) => (status.backend == Backend::Acp && crate::cards::opt_view(
                status.current_acp_id,
            ) == Some(id@) && !status.has_connection && !status.connecting
                && !status.has_pending_connect && !status.has_turn_owner
                && !status.has_session_transition && !status.current_session_closed),
            None => false,
        })),
{
    let retrying = match agent_id {
        Some(id) => can_retry_disconnected_acp(status, id),
        None => false,
    };
    no_running_sessions && (no_pending_submissions || retrying)
}

/// A cached transcript must stay while its session is open, running, has
/// queued input, owns the ACP turn or is the session being created.
pub fn session_transcript_is_protected(
    uid: &str,
    current_session: &str,
    running_sessions: &Vec<String>,
    pending_count: usize,
    turn_owner_session: Option<&str>,
    transition_session: Option<&str>,
) -> (r: bool)
    ensures
        r == (uid@ == current_session@ || string_views(running_sessions@).contains(uid@)
            || pending_count > 0 || crate::composer::opt_str(turn_owner_session) == Some(uid@)
            || crate::composer::opt_str(transition_session) == Some(uid@)),
{
    crate::text::str_eq(uid, current_session) || contains_str(running_sessions, uid) || pending_count
        > 0 || match turn_owner_session {
        Some(s) => crate::text::str_eq(s, uid),
        None => false,
    } || match transition_session {
        Some(s) => crate::text::str_eq(s, uid),
        None => false,
    }
}

/// Where the panel sits when it is framed as a sidebar.
#[derive(Clone, Copy, Debug, PartialEq, Eq, Structural)]
pub enum SidebarPlacement {
    Left,
    Right,
    Bottom,
}

/// One entry of the "move to" menu: a placement, disabled where the panel
/// already is.
#[derive(Clone, Copy, Debug, PartialEq, Eq, Structural)]
pub struct SidebarFrameMoveOption {
    pub placement: SidebarPlacement,
    pub disabled: bool,
}

/// The "move to" menu: left, right and bottom, in that order, the current
/// placement disabled.
pub fn sidebar_frame_move_options(current: SidebarPlacement) -> (r: Vec<SidebarFrameMoveOption>)
    ensures
        r@ == seq![
            SidebarFrameMoveOption {
                placement: SidebarPlacement::Left,
                disabled: current == SidebarPlacement::Left,
            },
            SidebarFrameMoveOption {
                placement: SidebarPlacement::Right,
                disabled: current == SidebarPlacement::Right,
            },
            SidebarFrameMoveOption {
                placement: SidebarPlacement::Bottom,
                disabled: current == SidebarPlacement::Bottom,
            },
        ],
{
    let mut options: Vec<SidebarFrameMoveOption> = Vec::new();
    options.push(
        SidebarFrameMoveOption {
            placement: SidebarPlacement::Left,
            disabled: current == SidebarPlacement::Left,
        },
    );
    options.push(
        SidebarFrameMoveOption {
            placement: SidebarPlacement::Right,
            disabled: current == SidebarPlacement::Right,
        },
    );
    options.push(
        SidebarFrameMoveOption {
            placement: SidebarPlacement::Bottom,
            disabled: current == SidebarPlacement::Bottom,
        },
    );
    assert(options@ =~= seq![
        SidebarFrameMoveOption {
            placement: SidebarPlacement::Left,
            disabled: current == SidebarPlacement::Left,
        },
        SidebarFrameMoveOption {
            placement: SidebarPlacement::Right,
            disabled: current == SidebarPlacement::Right,
        },
        SidebarFrameMoveOption {
            placement: SidebarPlacement::Bottom,
            disabled: current == SidebarPlacement::Bottom,
        },
    ]);
    options
}

/// The menu label of a placement.
pub fn sidebar_placement_label(placement: SidebarPlacement) -> (r: &'static str)
    ensures
        r@ == (match placement {
            SidebarPlacement::Left => "Left"@,
            SidebarPlacement::Right => "Right"@,
            SidebarPlacement::Bottom => "Bottom"@,
        }),
{
    match placement {
        SidebarPlacement::Left => "Left",
        SidebarPlacement::Right => "Right",
        SidebarPlacement::Bottom => "Bottom",
    }
}

/// How the panel is framed: full width by default, or as a narrow sidebar
/// with or without its own header and frame controls.
#[derive(Clone, Copy, Debug, PartialEq, Eq, Structural)]
pub struct SidebarLayout {
    pub sidebar_mode: bool,
    pub show_sidebar_header: bool,
    pub show_sidebar_frame_controls: bool,
    pub sidebar_frame_placement: SidebarPlacement,
}

impl Default for SidebarLayout {
    /// Full width; a sidebar would show its header but no frame controls and
    /// sit on the right.
    fn default() -> (r: Self)
        ensures
            r == (SidebarLayout {
                sidebar_mode: false,
                show_sidebar_header: true,
                show_sidebar_frame_controls: false,
                sidebar_frame_placement: SidebarPlacement::Right,
            }),
    {
        SidebarLayout {
            sidebar_mode: false,
            show_sidebar_header: true,
            show_sidebar_frame_controls: false,
            sidebar_frame_placement: SidebarPlacement::Right,
        }
    }
}

impl SidebarLayout {
    /// Turns the narrow sidebar view on or off.
    pub fn sidebar_mode(self, enabled: bool) -> (r: Self)
        ensures
            r == (SidebarLayout { sidebar_mode: enabled, ..self }),
    {
        SidebarLayout { sidebar_mode: enabled, ..self }
    }

    /// Shows or hides the sidebar's own header.
    pub fn show_sidebar_header(self, visible: bool) -> (r: Self)
        ensures
            r == (SidebarLayout { show_sidebar_header: visible, ..self }),
    {
        SidebarLayout { show_sidebar_header: visible, ..self }
    }

    /// Shows or hides the host frame's controls, and records where the
    /// frame sits.
    pub fn show_sidebar_frame_controls(self, visible: bool, placement: SidebarPlacement) -> (r: Self)
        ensures
            r == (SidebarLayout {
                show_sidebar_frame_controls: visible,
                sidebar_frame_placement: placement,
                ..self
            }),
    {
        SidebarLayout {
            show_sidebar_frame_controls: visible,
            sidebar_frame_placement: placement,
            ..self
        }
    }
}

/// What "new session" does.
#[derive(Clone, Copy, Debug, PartialEq, Eq, Structural)]
pub enum NewSessionAction {
    /// A running ACP task is stopped first; nothing else happens.
    StopRunning,
    /// No ACP agent or connection: the transcript says so.
    ReportNotConnected,
    /// An ACP session is already being created: nothing happens.
    Ignore,
    /// A new ACP session is created; the queue is dropped unless the last
    /// creation failed and this retries it.
    CreateAcpSession { clear_queue: bool },
    /// The local session is saved and a fresh one starts.
    StartLocalSession,
}

/// Decides what "new session" does for the backend and the ACP state.
pub fn new_session_action(
    backend: Backend,
    is_running: bool,
    has_agent: bool,
    transition_phase: Option<AcpSessionTransitionPhase>,
    has_connection: bool,
) -> (r: NewSessionAction)
    ensures
        r == (if backend == Backend::Local {
            NewSessionAction::StartLocalSession
        } else if is_running {
            NewSessionAction::StopRunning
        } else if !has_agent {
            NewSessionAction::ReportNotConnected
        } else if transition_phase == Some(AcpSessionTransitionPhase::Creating) {
            NewSessionAction::Ignore
        } else if !has_connection {
            NewSessionAction::ReportNotConnected
        } else {
            NewSessionAction::CreateAcpSession {
                clear_queue: transition_phase != Some(AcpSessionTransitionPhase::Failed),
            }
        }),
{
    match backend {
        Backend::Local => NewSessionAction::StartLocalSession,
        Backend::Acp => {
            if is_running {
                NewSessionAction::StopRunning
            } else if !has_agent {
                NewSessionAction::ReportNotConnected
            } else if transition_phase == Some(AcpSessionTransitionPhase::Creating) {
                NewSessionAction::Ignore
            } else if !has_connection {
                NewSessionAction::ReportNotConnected
            } else {
                NewSessionAction::CreateAcpSession {
                    clear_queue: transition_phase != Some(AcpSessionTransitionPhase::Failed),
                }
            }
        },
    }
}

pub open spec fn has_turn(s: Seq<String>, t: Seq<char>) -> bool {
    exists|i: int| 0 <= i < s.len() && #[trigger] s[i]@ == t
}

proof fn lemma_has_turn_push(s: Seq<String>, x: String)
    ensures
        forall|t: Seq<char>| #[trigger] has_turn(s.push(x), t) == (has_turn(s, t) || x@ == t),
{
    assert forall|t: Seq<char>| #[trigger] has_turn(s.push(x), t) == (has_turn(s, t) || x@ == t) by {
        let p = s.push(x);
        if has_turn(s, t) {
            let i = choose|i: int| 0 <= i < s.len() && #[trigger] s[i]@ == t;
            assert(p[i] == s[i]);
        }
        if x@ == t {
            assert(p[s.len() as int]@ == t);
        }
        if has_turn(p, t) {
            let i = choose|i: int| 0 <= i < p.len() && #[trigger] p[i]@ == t;
            if i < s.len() {
                assert(p[i] == s[i]);
            }
        }
    }
}

/// The local turns whose events are dropped: turns the user stopped or whose
/// session was closed, until their terminal event arrives.
#[derive(Debug)]
pub struct IgnoredTurns {
    turns: Vec<String>,
}

impl IgnoredTurns {
    pub closed spec fn ignores(&self, turn_id: Seq<char>) -> bool {
        has_turn(self.turns@, turn_id)
    }

    /// No turn is ignored.
    pub fn new() -> (r: Self)
        ensures
            forall|t: Seq<char>| !#[trigger] r.ignores(t),
    {
        IgnoredTurns { turns: Vec::new() }
    }

    /// Whether the turn's events are dropped.
    pub fn contains(&self, turn_id: &str) -> (r: bool)
        ensures
            r == self.ignores(turn_id@),
    {
        let n = self.turns.len();
        let mut i: usize = 0;
        while i < n
            invariant
                n == self.turns@.len(),
                i <= n,
                forall|j: int| 0 <= j < i ==> self.turns@[j]@ != turn_id@,
            decreases n - i,
        {
            if crate::text::str_eq(self.turns[i].as_str(), turn_id) {
                proof {
                    assert(self.turns@[i as int]@ == turn_id@);
                }
                return true;
            }
            i = i + 1;
        }
        false
    }

    /// Drops the turn's events from now on.
    pub fn insert(&mut self, turn_id: &str)
        ensures
            forall|t: Seq<char>| #[trigger] final(self).ignores(t) == (old(self).ignores(t) || t == turn_id@),
    {
        let ghost before = self.turns@;
        let key = turn_id.to_owned();
        proof {
            lemma_has_turn_push(before, key);
        }
        self.turns.push(key);
    }

    /// Admits the turn's events again.
    pub fn remove(&mut self, turn_id: &str)
        ensures
            forall|t: Seq<char>| #[trigger] final(self).ignores(t) == (old(self).ignores(t) && t != turn_id@),
    {
        let ghost before = self.turns@;
        let mut kept: Vec<String> = Vec::new();
        let n = self.turns.len();
        let mut i: usize = 0;
        while i < n
            invariant
                before == self.turns@,
                n == before.len(),
                i <= n,
                forall|t: Seq<char>| #[trigger] has_turn(kept@, t) == (has_turn(before.take(i as int), t) && t != turn_id@),
            decreases n - i,
        {
            let ghost kb = kept@;
            proof {
                assert(before.take(i + 1) =~= before.take(i as int).push(before[i as int]));
                lemma_has_turn_push(before.take(i as int), before[i as int]);
            }
            if !crate::text::str_eq(self.turns[i].as_str(), turn_id) {
                kept.push(self.turns[i].clone());
                proof {
                    assert(kept@ =~= kb.push(before[i as int]));
                    lemma_has_turn_push(kb, before[i as int]);
                }
            }
            i = i + 1;
        }
        proof {
            assert(before.take(n as int) =~= before);
        }
        self.turns = kept;
    }

    /// A local event of an ignored turn is dropped (`true`); a terminal one
    /// also ends the ignoring of its turn.
    pub fn drop_local_event(&mut self, turn_id: &str, is_terminal: bool) -> (r: bool)
        ensures
            r == old(self).ignores(turn_id@),
            forall|t: Seq<char>| #[trigger] final(self).ignores(t) == (old(self).ignores(t) && !(r
                && is_terminal && t == turn_id@)),
    {
        if !self.contains(turn_id) {
            return false;
        }
        if is_terminal {
            self.remove(turn_id);
        }
        true
    }

    /// Admits every turn again (the runtime was replaced).
    pub fn clear(&mut self)
        ensures
            forall|t: Seq<char>| !#[trigger] final(self).ignores(t),
    {
        self.turns = Vec::new();
    }
}

} // verus!
