use onet_agent_core::acp_flow::{PendingAdvance, SubmissionStart};
use onet_agent_core::pending::{
    after_front_start, pending_step, queue_after_direct_start, submit_route, PendingSubmission,
    PendingSubmissions, SubmitRoute,
};

fn pending_submission(text: &str) -> PendingSubmission {
    PendingSubmission { text: text.to_string(), mentions: Vec::new(), images: Vec::new() }
}

fn texts(queue: &PendingSubmissions, session: &str) -> Vec<String> {
    queue.items(session).into_iter().map(|s| s.text.clone()).collect()
}

#[test]
fn queued_submissions_leave_in_fifo_order() {
    let mut queue = PendingSubmissions::new();
    queue.enqueue("s1", pending_submission("first"));
    queue.enqueue("s1", pending_submission("second"));
    queue.enqueue("s1", pending_submission("third"));

    assert_eq!(3, queue.len("s1"));
    assert_eq!("first", queue.front("s1").unwrap().text);
    assert_eq!("first", queue.pop_front("s1").unwrap().text);
    assert_eq!("second", queue.pop_front("s1").unwrap().text);
    assert_eq!(vec!["third".to_string()], texts(&queue, "s1"));
}

#[test]
fn session_queues_are_independent() {
    let mut queue = PendingSubmissions::new();
    queue.enqueue("a", pending_submission("a1"));
    queue.enqueue("b", pending_submission("b1"));
    queue.enqueue("a", pending_submission("a2"));

    assert_eq!(vec!["a1".to_string(), "a2".to_string()], texts(&queue, "a"));
    assert_eq!(vec!["b1".to_string()], texts(&queue, "b"));
    assert_eq!("b1", queue.pop_front("b").unwrap().text);
    assert!(queue.pop_front("b").is_none());
    assert_eq!(2, queue.len("a"));
}

#[test]
fn stop_clears_only_the_stopped_session_queue() {
    let mut queue = PendingSubmissions::new();
    queue.enqueue("current", pending_submission("c1"));
    queue.enqueue("other", pending_submission("o1"));
    queue.enqueue("current", pending_submission("c2"));

    queue.clear_session("current");

    assert_eq!(0, queue.len("current"));
    assert!(queue.front("current").is_none());
    assert_eq!(vec!["o1".to_string()], texts(&queue, "other"));
    assert!(!queue.is_empty());
    queue.clear_session("other");
    assert!(queue.is_empty());
}

#[test]
fn submissions_never_jump_the_queue() {
    assert_eq!(SubmitRoute::Queue, submit_route(true, 0, true));
    assert_eq!(SubmitRoute::QueueAndResume, submit_route(false, 2, true));
    assert_eq!(SubmitRoute::QueueAndReconnect, submit_route(false, 0, true));
    assert_eq!(SubmitRoute::Start, submit_route(false, 0, false));
    assert!(queue_after_direct_start(SubmissionStart::RetryLater));
    assert!(!queue_after_direct_start(SubmissionStart::Started));
    assert!(!queue_after_direct_start(SubmissionStart::Rejected));
}

#[test]
fn advancing_a_queue_starts_blocks_or_skips_rejected_fronts() {
    assert_eq!(Some(PendingAdvance::Blocked), pending_step(true, 3));
    assert_eq!(Some(PendingAdvance::Idle), pending_step(false, 0));
    assert_eq!(None, pending_step(false, 1));
    assert_eq!((true, Some(PendingAdvance::Started)), after_front_start(SubmissionStart::Started));
    assert_eq!((false, Some(PendingAdvance::Blocked)), after_front_start(SubmissionStart::RetryLater));
    assert_eq!((true, None), after_front_start(SubmissionStart::Rejected));
}
