use onet_agent_core::sessions::{merge_live_session_summaries, SessionSummary};

fn ids(list: &[SessionSummary]) -> Vec<&str> {
    list.iter().map(|summary| summary.id.as_str()).collect()
}

#[test]
fn workbench_sidebar_merges_current_and_background_running_sessions() {
    let persisted = vec![SessionSummary::new("saved", "已保存任务", 10)];
    let live = vec![
        SessionSummary::new("current", "当前任务", 30),
        SessionSummary::new("running", "后台任务", 20),
    ];
    let running = vec!["running".to_string()];

    let merged = merge_live_session_summaries(persisted, &live, "current", &running, false);

    assert_eq!(vec!["current", "running", "saved"], ids(&merged));
}

#[test]
fn selecting_session_does_not_move_it_to_front() {
    let persisted = vec![
        SessionSummary::new("newest", "最新任务", 30),
        SessionSummary::new("middle", "中间任务", 20),
        SessionSummary::new("selected", "选中任务", 10),
    ];
    let live = vec![SessionSummary::new("selected", "选中任务", 10)];

    let merged = merge_live_session_summaries(persisted, &live, "selected", &Vec::new(), false);

    assert_eq!(
        vec!["newest", "middle", "selected"],
        ids(&merged),
        "selecting a conversation should only change its selected state, not its list position"
    );
}

#[test]
fn archived_sidebar_does_not_mix_in_live_workbench_tasks() {
    let archived = vec![SessionSummary::new("archived", "归档任务", 10)];
    let live = vec![SessionSummary::new("current", "当前任务", 30)];
    let running = vec!["current".to_string()];

    let merged = merge_live_session_summaries(archived, &live, "current", &running, true);

    assert_eq!(vec!["archived"], ids(&merged));
}

#[test]
fn live_row_replaces_the_stored_row_and_idle_live_rows_stay_out() {
    let persisted = vec![
        SessionSummary::new("a", "old title", 5),
        SessionSummary::new("b", "stored", 7),
    ];
    let live = vec![
        SessionSummary::new("a", "new title", 40),
        SessionSummary::new("idle", "not running", 99),
    ];

    let merged = merge_live_session_summaries(persisted, &live, "a", &Vec::new(), false);

    assert_eq!(vec!["a", "b"], ids(&merged));
    assert_eq!("new title", merged[0].title);
    assert_eq!(40, merged[0].updated_at);
}

#[test]
fn rows_of_equal_time_keep_live_then_stored_order() {
    let persisted = vec![
        SessionSummary::new("s1", "one", 10),
        SessionSummary::new("s2", "two", 10),
    ];
    let live = vec![
        SessionSummary::new("r1", "run one", 10),
        SessionSummary::new("r2", "run two", 50),
    ];
    let running = vec!["r1".to_string(), "r2".to_string()];

    let merged = merge_live_session_summaries(persisted, &live, "none", &running, false);

    assert_eq!(vec!["r2", "r1", "s1", "s2"], ids(&merged));
    for pair in merged.windows(2) {
        assert!(pair[0].updated_at >= pair[1].updated_at);
    }
}
