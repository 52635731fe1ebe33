use onet_agent_core::acp_flow::{
    acp_pending_schedule_candidates, can_retry_disconnected_acp, can_select_backend,
    session_transcript_is_protected, sidebar_frame_move_options, sidebar_placement_label,
    new_session_action, AcpAgentStatus, IgnoredTurns, NewSessionAction, SidebarFrameMoveOption, SidebarLayout,
    SidebarPlacement,
};
use onet_agent_core::acp_flow::{
    acp_connection_is_unavailable, acp_stop_action, acp_terminal_allows_queue_advance,
    route_runtime_event, runtime_event_effects, should_stop_task_before_session_switch,
    sidebar_mode_header_action_ids, stopped_session_uid, submission_start_for_acp_availability,
    submission_start_for_acp_error, AcpConnectionPhase, AcpPromptStartError,
    AcpSessionTransitionPhase, AcpStopAction, AcpTurnOwner, AutoScrollState, Backend, EventKind,
    SubmissionStart,
};

#[test]
fn acp_prompt_start_errors_have_explicit_queue_dispositions() {
    assert_eq!(
        SubmissionStart::RetryLater,
        submission_start_for_acp_error(AcpPromptStartError::AlreadyRunning)
    );
    assert_eq!(
        SubmissionStart::RetryLater,
        submission_start_for_acp_error(AcpPromptStartError::NotReady)
    );
    assert_eq!(
        SubmissionStart::Rejected,
        submission_start_for_acp_error(AcpPromptStartError::ImageUnsupported)
    );
}

#[test]
fn acp_availability_distinguishes_temporary_and_terminal_unavailability() {
    assert_eq!(
        Some(SubmissionStart::RetryLater),
        submission_start_for_acp_availability(false, true, false, false, false)
    );
    assert_eq!(
        Some(SubmissionStart::RetryLater),
        submission_start_for_acp_availability(false, false, true, false, false)
    );
    assert_eq!(
        Some(SubmissionStart::RetryLater),
        submission_start_for_acp_availability(false, false, false, true, false)
    );
    assert_eq!(
        Some(SubmissionStart::RetryLater),
        submission_start_for_acp_availability(true, false, false, true, false)
    );
    assert_eq!(
        Some(SubmissionStart::RetryLater),
        submission_start_for_acp_availability(true, true, false, false, false)
    );
    assert_eq!(
        Some(SubmissionStart::RetryLater),
        submission_start_for_acp_availability(true, false, true, false, false)
    );
    assert_eq!(
        Some(SubmissionStart::RetryLater),
        submission_start_for_acp_availability(false, false, false, false, true)
    );
    assert_eq!(
        Some(SubmissionStart::Rejected),
        submission_start_for_acp_availability(false, false, false, false, false)
    );
    assert_eq!(
        None,
        submission_start_for_acp_availability(true, false, false, false, false)
    );
}

#[test]
fn acp_stop_action_distinguishes_prompt_control_and_failed_transition_states() {
    assert_eq!(
        AcpStopAction::CancelActivePrompt,
        acp_stop_action(true, true, false, false, None)
    );
    assert_eq!(
        AcpStopAction::ReturnToLocal,
        acp_stop_action(false, false, true, false, None)
    );
    assert_eq!(
        AcpStopAction::ReturnToLocal,
        acp_stop_action(false, false, false, true, None)
    );
    assert_eq!(
        AcpStopAction::ReturnToLocal,
        acp_stop_action(
            false,
            false,
            false,
            false,
            Some(AcpSessionTransitionPhase::Creating),
        )
    );
    assert_eq!(
        AcpStopAction::AbandonFailedTransition,
        acp_stop_action(
            false,
            true,
            false,
            false,
            Some(AcpSessionTransitionPhase::Failed),
        )
    );
    assert_eq!(
        AcpStopAction::ReturnToLocal,
        acp_stop_action(
            false,
            false,
            false,
            false,
            Some(AcpSessionTransitionPhase::Failed),
        )
    );
    assert_eq!(
        AcpStopAction::ClearQueueOnly,
        acp_stop_action(false, false, false, false, None)
    );
}

#[test]
fn auto_scroll_state_consumes_pending_scroll_in_render() {
    let mut state = AutoScrollState::default();

    assert!(!state.take_pending_for_render());
    state.request();
    assert!(state.take_pending_for_render());
    assert!(state.take_pending_for_render());
    assert!(!state.take_pending_for_render());
}

#[test]
fn auto_scroll_state_terminal_request_spans_multiple_renders() {
    let mut state = AutoScrollState::default();

    state.request_settle();
    for _ in 0..5 {
        assert!(state.take_pending_for_render());
    }
    assert!(!state.take_pending_for_render());
}

#[test]
fn auto_scroll_requests_never_shorten_a_pending_scroll() {
    let mut state = AutoScrollState::new();
    state.request_settle();
    state.request();
    assert_eq!(5, state.pending_bottom_scroll_frames);
}

#[test]
fn sidebar_mode_header_actions_include_close() {
    assert_eq!(
        vec!["new", "history", "close"],
        sidebar_mode_header_action_ids(false)
    );
}

#[test]
fn sidebar_mode_header_actions_can_include_frame_options() {
    assert_eq!(
        vec!["new", "history", "frame-options", "close"],
        sidebar_mode_header_action_ids(true)
    );
}

#[test]
fn local_workbench_can_switch_away_from_a_running_session() {
    assert!(!should_stop_task_before_session_switch(Backend::Local));
    assert!(should_stop_task_before_session_switch(Backend::Acp));
}

#[test]
fn acp_turn_owner_marks_cancel_once_for_its_session() {
    let mut owner = AcpTurnOwner {
        event_session_id: "acp:cancel-once".into(),
        session_uid: "session-a".into(),
        turn_id: "turn-a".into(),
        cancel_requested: false,
    };

    assert!(!owner.mark_cancel_requested("session-b", true));
    assert!(!owner.mark_cancel_requested("session-a", false));
    assert!(owner.mark_cancel_requested("session-a", true));
    assert!(!owner.mark_cancel_requested("session-a", true));
}

#[test]
fn acp_terminal_only_advances_fifo_while_connection_is_ready() {
    let failed = AcpConnectionPhase::Failed {
        message: "connection failed".into(),
    };
    let running = AcpConnectionPhase::RunningTurn {
        turn_id: "turn".into(),
    };

    assert!(acp_terminal_allows_queue_advance(Some(&AcpConnectionPhase::Ready)));
    assert!(!acp_terminal_allows_queue_advance(Some(&failed)));
    assert!(!acp_terminal_allows_queue_advance(Some(&AcpConnectionPhase::Closed)));
    assert!(!acp_terminal_allows_queue_advance(Some(&running)));
    assert!(!acp_terminal_allows_queue_advance(None));

    assert!(acp_connection_is_unavailable(Some(&failed)));
    assert!(acp_connection_is_unavailable(Some(&AcpConnectionPhase::Closed)));
    assert!(!acp_connection_is_unavailable(Some(&AcpConnectionPhase::Ready)));
}

#[test]
fn stop_returning_to_local_clears_the_origin_session_queue() {
    let origin = Some("origin".to_string());
    assert_eq!("origin", stopped_session_uid(AcpStopAction::ReturnToLocal, &origin, "current"));
    assert_eq!("current", stopped_session_uid(AcpStopAction::ReturnToLocal, &None, "current"));
    assert_eq!("current", stopped_session_uid(AcpStopAction::ClearQueueOnly, &origin, "current"));
}

#[test]
fn runtime_events_route_to_their_owner_session() {
    assert_eq!(Some("s1".to_string()), route_runtime_event(Backend::Local, "s1", "t1", false, None));
    assert_eq!(None, route_runtime_event(Backend::Local, "s1", "t1", true, None));
    let owner = AcpTurnOwner {
        event_session_id: "acp:1".into(),
        session_uid: "panel-1".into(),
        turn_id: "t1".into(),
        cancel_requested: false,
    };
    assert_eq!(
        Some("panel-1".to_string()),
        route_runtime_event(Backend::Acp, "acp:1", "t1", false, Some(&owner))
    );
    assert_eq!(None, route_runtime_event(Backend::Acp, "acp:1", "t2", false, Some(&owner)));
    assert_eq!(None, route_runtime_event(Backend::Acp, "acp:1", "t1", false, None));
}

#[test]
fn local_question_pauses_the_turn_but_tool_approval_keeps_it_running() {
    let question = runtime_event_effects(
        Backend::Local,
        EventKind::NeedUserInput { tool_approval: false },
        false,
        false,
        false,
        true,
        true,
    );
    assert!(question.clears_running);
    assert!(question.persists_session);
    assert!(!question.advances_queue);

    let approval = runtime_event_effects(
        Backend::Local,
        EventKind::NeedUserInput { tool_approval: true },
        false,
        false,
        false,
        true,
        true,
    );
    assert!(!approval.clears_running);
    assert!(approval.persists_session);
}

#[test]
fn acp_turn_end_releases_the_agent_and_advances_only_when_ready() {
    let ready = runtime_event_effects(Backend::Acp, EventKind::TurnCompleted, true, false, false, true, true);
    assert!(ready.clears_running && ready.releases_turn_owner && ready.cancels_acp_permissions);
    assert!(ready.advances_queue);
    assert!(ready.settles_scroll);
    assert!(!ready.persists_session);

    let closed = runtime_event_effects(Backend::Acp, EventKind::TurnFailed, false, true, false, false, true);
    assert!(closed.invalidates_connection);
    assert!(!closed.advances_queue);
    assert!(!closed.scrolls_to_bottom);

    let duplicate = runtime_event_effects(Backend::Acp, EventKind::TurnCompleted, true, false, false, true, false);
    assert!(!duplicate.clears_running && !duplicate.advances_queue);

    let closed_session = runtime_event_effects(Backend::Acp, EventKind::TurnCancelled, true, false, true, true, true);
    assert!(!closed_session.apply_to_transcript);
    assert!(closed_session.releases_turn_owner && closed_session.advances_queue);
}

#[test]
fn local_cancellation_does_not_advance_the_queue() {
    let cancelled = runtime_event_effects(Backend::Local, EventKind::TurnCancelled, false, false, false, true, true);
    assert!(cancelled.clears_running);
    assert!(!cancelled.advances_queue);
    let completed = runtime_event_effects(Backend::Local, EventKind::TurnCompleted, false, false, false, true, true);
    assert!(completed.advances_queue);
}

fn disconnected_status() -> AcpAgentStatus {
    AcpAgentStatus {
        backend: Backend::Acp,
        current_acp_id: Some("codex".to_string()),
        has_connection: false,
        connecting: false,
        has_pending_connect: false,
        has_turn_owner: false,
        has_session_transition: false,
        current_session_closed: false,
    }
}

#[test]
fn pending_schedule_candidates_skip_closed_sessions_and_repeat_no_session() {
    let none: Vec<String> = Vec::new();
    assert_eq!(vec!["origin", "current"], acp_pending_schedule_candidates("origin", "current", &none));
    assert_eq!(vec!["same"], acp_pending_schedule_candidates("same", "same", &none));
    let closed = vec!["origin".to_string()];
    assert_eq!(vec!["current"], acp_pending_schedule_candidates("origin", "current", &closed));
    let both = vec!["origin".to_string(), "current".to_string()];
    assert!(acp_pending_schedule_candidates("origin", "current", &both).is_empty());
}

#[test]
fn disconnected_acp_can_be_retried_only_when_nothing_is_in_flight() {
    let status = disconnected_status();
    assert!(can_retry_disconnected_acp(&status, "codex"));
    assert!(!can_retry_disconnected_acp(&status, "other"));

    let mut connecting = disconnected_status();
    connecting.connecting = true;
    assert!(!can_retry_disconnected_acp(&connecting, "codex"));

    let mut connected = disconnected_status();
    connected.has_connection = true;
    assert!(!can_retry_disconnected_acp(&connected, "codex"));

    let mut local = disconnected_status();
    local.backend = Backend::Local;
    assert!(!can_retry_disconnected_acp(&local, "codex"));
}

#[test]
fn backend_switch_waits_for_running_sessions_and_queue() {
    let status = disconnected_status();
    assert!(can_select_backend(&status, None, true, true));
    assert!(!can_select_backend(&status, None, false, true));
    assert!(!can_select_backend(&status, None, true, false));
    assert!(can_select_backend(&status, Some("codex"), true, false));
    assert!(!can_select_backend(&status, Some("other"), true, false));
}

#[test]
fn open_running_queued_and_acp_sessions_keep_their_transcripts() {
    let running = vec!["bg".to_string()];
    assert!(session_transcript_is_protected("cur", "cur", &running, 0, None, None));
    assert!(session_transcript_is_protected("bg", "cur", &running, 0, None, None));
    assert!(session_transcript_is_protected("q", "cur", &running, 2, None, None));
    assert!(session_transcript_is_protected("own", "cur", &running, 0, Some("own"), None));
    assert!(session_transcript_is_protected("new", "cur", &running, 0, None, Some("new")));
    assert!(!session_transcript_is_protected("idle", "cur", &running, 0, Some("own"), Some("new")));
}

#[test]
fn sidebar_move_menu_disables_the_current_placement() {
    let options = sidebar_frame_move_options(SidebarPlacement::Bottom);
    assert_eq!(
        vec![
            SidebarFrameMoveOption { placement: SidebarPlacement::Left, disabled: false },
            SidebarFrameMoveOption { placement: SidebarPlacement::Right, disabled: false },
            SidebarFrameMoveOption { placement: SidebarPlacement::Bottom, disabled: true },
        ],
        options
    );
    assert_eq!("Left", sidebar_placement_label(SidebarPlacement::Left));
    assert_eq!("Bottom", sidebar_placement_label(SidebarPlacement::Bottom));
}

#[test]
fn layout_defaults_to_full_view_and_builder_enables_sidebar() {
    let layout = SidebarLayout::default();
    assert!(!layout.sidebar_mode);
    assert!(layout.sidebar_mode(true).sidebar_mode);
}

#[test]
fn sidebar_header_visibility_can_be_disabled_for_framed_hosts() {
    let layout = SidebarLayout::default().sidebar_mode(true);
    assert!(layout.show_sidebar_header);
    assert!(!layout.show_sidebar_frame_controls);

    let embedded = layout.show_sidebar_header(false);
    assert!(!embedded.show_sidebar_header);
}

#[test]
fn frame_controls_record_the_host_placement() {
    let layout = SidebarLayout::default()
        .sidebar_mode(true)
        .show_sidebar_frame_controls(true, SidebarPlacement::Bottom);

    assert!(layout.show_sidebar_frame_controls);
    assert_eq!(SidebarPlacement::Bottom, layout.sidebar_frame_placement);
    assert_eq!(
        vec!["new", "history", "frame-options", "close"],
        sidebar_mode_header_action_ids(layout.show_sidebar_frame_controls)
    );
}

#[test]
fn new_session_stops_reports_waits_or_creates() {
    let creating = Some(AcpSessionTransitionPhase::Creating);
    let failed = Some(AcpSessionTransitionPhase::Failed);
    assert_eq!(
        NewSessionAction::StartLocalSession,
        new_session_action(Backend::Local, true, false, None, false)
    );
    assert_eq!(NewSessionAction::StopRunning, new_session_action(Backend::Acp, true, true, None, true));
    assert_eq!(
        NewSessionAction::ReportNotConnected,
        new_session_action(Backend::Acp, false, false, None, true)
    );
    assert_eq!(NewSessionAction::Ignore, new_session_action(Backend::Acp, false, true, creating, true));
    assert_eq!(
        NewSessionAction::ReportNotConnected,
        new_session_action(Backend::Acp, false, true, None, false)
    );
    assert_eq!(
        NewSessionAction::CreateAcpSession { clear_queue: true },
        new_session_action(Backend::Acp, false, true, None, true)
    );
    assert_eq!(
        NewSessionAction::CreateAcpSession { clear_queue: false },
        new_session_action(Backend::Acp, false, true, failed, true)
    );
}

#[test]
fn ignored_turn_events_are_dropped_until_their_terminal_event() {
    let mut ignored = IgnoredTurns::new();
    ignored.insert("t1");
    assert!(ignored.contains("t1"));
    assert!(ignored.drop_local_event("t1", false));
    assert!(ignored.contains("t1"));
    assert!(ignored.drop_local_event("t1", true));
    assert!(!ignored.contains("t1"));
    assert!(!ignored.drop_local_event("t1", false));

    ignored.insert("t2");
    ignored.remove("t2");
    assert!(!ignored.contains("t2"));
    ignored.insert("t3");
    ignored.clear();
    assert!(!ignored.contains("t3"));
}

#[test]
fn a_request_scrolls_for_its_frames_then_stops() {
    let mut state = AutoScrollState::default();
    state.request_frames(3);
    state.request();
    let taken: Vec<bool> = (0..5).map(|_| state.take_pending_for_render()).collect();
    assert_eq!(vec![true, true, true, false, false], taken);
}
