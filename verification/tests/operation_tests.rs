use onet_agent_core::acp_flow::{AcpSessionTransitionPhase, Backend};
use onet_agent_core::operations::{AcpOperationToken, AcpRoute, OperationGenerations};

fn acp_route(agent: &str, session: &str) -> AcpRoute {
    AcpRoute {
        backend: Backend::Acp,
        current_acp_id: Some(agent.to_string()),
        current_session: session.to_string(),
        closed_sessions: Vec::new(),
        connecting_id: None,
        connect_origin_session: None,
    }
}

#[test]
fn stale_local_callback_is_not_current_after_a_new_generation() {
    let mut ops = OperationGenerations::new();
    assert_eq!(None, ops.current_local_operation_generation("s1"));

    let first = ops.next_local_operation_generation("s1");
    assert_eq!(1, first);
    assert!(ops.is_current_local_operation_generation("s1", first));

    let second = ops.next_local_operation_generation("s1");
    assert_eq!(2, second);
    assert!(!ops.is_current_local_operation_generation("s1", first));
    assert!(ops.is_current_local_operation_generation("s1", second));
}

#[test]
fn local_generations_are_kept_per_session() {
    let mut ops = OperationGenerations::new();
    let a = ops.next_local_operation_generation("a");
    ops.next_local_operation_generation("b");
    ops.next_local_operation_generation("b");

    assert_eq!(Some(a), ops.current_local_operation_generation("a"));
    assert_eq!(Some(2), ops.current_local_operation_generation("b"));
    assert!(!ops.is_current_local_operation_generation("c", 0));
}

#[test]
fn generation_wraps_past_zero_to_one() {
    let mut ops = OperationGenerations::new();
    ops.local.push(("s".to_string(), u64::MAX));
    assert_eq!(1, ops.next_local_operation_generation("s"));

    ops.acp = u64::MAX;
    assert_eq!(AcpOperationToken(1), ops.next_acp_operation());
}

#[test]
fn acp_operation_generation_separates_same_agent_callbacks() {
    let mut ops = OperationGenerations::new();
    let mut route = acp_route("codex", "s1");
    route.connecting_id = Some("codex".to_string());
    route.connect_origin_session = Some("s1".to_string());

    let first = ops.next_acp_operation();
    assert!(ops.is_current_acp_connection_operation(&route, first, "codex", "s1"));

    let second = ops.next_acp_operation();
    assert!(!ops.is_current_acp_operation(first));
    assert!(!ops.is_current_acp_connection_operation(&route, first, "codex", "s1"));
    assert!(ops.is_current_acp_connection_operation(&route, second, "codex", "s1"));
    assert!(!ops.is_current_acp_connection_operation(&route, second, "codex", "s2"));
}

#[test]
fn acp_session_operation_guard_rejects_changed_or_closed_session() {
    let mut ops = OperationGenerations::new();
    let op = ops.next_acp_operation();
    let mut route = acp_route("codex", "s1");
    assert!(ops.is_current_acp_session_operation(&route, op, "codex", "s1"));
    assert!(!ops.is_current_acp_session_operation(&route, op, "claw", "s1"));

    route.current_session = "s2".to_string();
    assert!(!ops.is_current_acp_session_operation(&route, op, "codex", "s1"));

    route.current_session = "s1".to_string();
    route.closed_sessions.push("s1".to_string());
    assert!(!ops.is_current_acp_session_operation(&route, op, "codex", "s1"));

    route.closed_sessions.clear();
    route.backend = Backend::Local;
    assert!(!ops.is_current_acp_session_operation(&route, op, "codex", "s1"));
}

#[test]
fn session_transition_phase_follows_its_operation() {
    let mut ops = OperationGenerations::new();
    let route = acp_route("codex", "s1");
    let op = ops.begin_acp_session_transition("codex".to_string(), "s1".to_string());

    assert_eq!(
        Some(AcpSessionTransitionPhase::Creating),
        ops.acp_session_transition_phase(&route, "s1")
    );
    assert_eq!(None, ops.acp_session_transition_phase(&route, "s2"));

    assert!(!ops.mark_acp_session_transition_failed(&route, AcpOperationToken(op.0 + 1), "codex", "s1"));
    assert!(ops.mark_acp_session_transition_failed(&route, op, "codex", "s1"));
    assert_eq!(
        Some(AcpSessionTransitionPhase::Failed),
        ops.acp_session_transition_phase(&route, "s1")
    );

    assert!(!ops.clear_acp_session_transition(AcpOperationToken(op.0 + 1)));
    assert!(ops.clear_acp_session_transition(op));
    assert_eq!(None, ops.acp_session_transition_phase(&route, "s1"));
}

#[test]
fn new_acp_operation_drops_the_session_being_created() {
    let mut ops = OperationGenerations::new();
    let route = acp_route("codex", "s1");
    let op = ops.begin_acp_session_transition("codex".to_string(), "s1".to_string());
    let next = ops.next_acp_operation();

    assert_ne!(op, next);
    assert_eq!(None, ops.acp_session_transition_phase(&route, "s1"));
    assert!(!ops.clear_acp_session_transition(op));
}
