use onet_agent_core::cards::{
    AcpPermissionOptionData, Card, ChatMessage, MessageVariant, ToolConfirmItemData,
    MAX_CARD_COLLECTION_ITEMS, MAX_CARD_FIELD_BYTES, MAX_CARD_ITEM_FIELD_BYTES,
};
use onet_agent_core::events::ToolArguments;
use onet_agent_core::events::{
    AcpPermissionRequest, ChartBlock, HistoryItem, Plan, PlanStatus, PlanStep, RuntimeEvent,
    StepStatus, ToolInputDisplay, ToolObservation,
};
use onet_agent_core::transcript::{delegate_task_args, terminal_event_key, AgentTranscript, TerminalEventKey};
use onet_agent_core::transcript_model::{
    MAX_ACTIVE_SUBAGENTS, MAX_CACHED_TOOL_INPUT_BYTES, MAX_DATA_CHARS, MAX_TERMINAL_EVENTS,
};

const MARKER: &str = "[...earlier content truncated...]\n";

fn arguments(json: &str) -> ToolArguments {
    let value: serde_json::Value = serde_json::from_str(json).unwrap();
    let mut string_fields = Vec::new();
    if let Some(object) = value.as_object() {
        for (key, field) in object {
            if let Some(text) = field.as_str() {
                string_fields.push((key.clone(), text.to_string()));
            }
        }
    }
    ToolArguments { string_fields }
}

fn tid() -> String {
    "t1".to_string()
}

fn none() -> Vec<ChartBlock> {
    Vec::new()
}

fn input(summary: &str, json: &str) -> ToolInputDisplay {
    ToolInputDisplay { summary: summary.to_string(), json: json.to_string() }
}

fn tool_started(call_id: &str, tool_name: &str, summary: &str, json: &str) -> RuntimeEvent {
    RuntimeEvent::ToolCallStarted {
        turn_id: tid(),
        call_id: call_id.to_string(),
        tool_name: tool_name.to_string(),
        input: input(summary, json),
        arguments_json: json.to_string(),
    }
}

fn observation(call_id: &str, tool_name: &str, summary: &str, data: &str) -> ToolObservation {
    ToolObservation {
        call_id: call_id.to_string(),
        tool_name: tool_name.to_string(),
        success: true,
        summary: summary.to_string(),
        data_text: data.to_string(),
        resource_id: None,
    }
}

fn delta(text: &str) -> RuntimeEvent {
    RuntimeEvent::AssistantMessageDelta { turn_id: tid(), delta: text.to_string() }
}

fn reasoning(text: &str) -> RuntimeEvent {
    RuntimeEvent::ReasoningDelta { turn_id: tid(), delta: text.to_string() }
}

fn completed() -> RuntimeEvent {
    RuntimeEvent::TurnCompleted { turn_id: tid() }
}

fn is_tool_card(m: &ChatMessage) -> bool {
    matches!(m.variant, MessageVariant::Card(Card::Tool(_)))
}

fn tool_data(m: &ChatMessage) -> &onet_agent_core::cards::ToolCardData {
    match &m.variant {
        MessageVariant::Card(Card::Tool(d)) => d,
        _ => panic!("not a tool card"),
    }
}

fn confirm_data(m: &ChatMessage) -> &onet_agent_core::cards::ToolConfirmCardData {
    match &m.variant {
        MessageVariant::Card(Card::ToolConfirm(d)) => d,
        _ => panic!("not a confirmation card"),
    }
}

fn acp_data(m: &ChatMessage) -> &onet_agent_core::cards::AcpPermissionCardData {
    match &m.variant {
        MessageVariant::Card(Card::AcpPermission(d)) => d,
        _ => panic!("not a permission card"),
    }
}

fn subagent_data(m: &ChatMessage) -> &onet_agent_core::cards::SubAgentCardData {
    match &m.variant {
        MessageVariant::Card(Card::SubAgent(d)) => d,
        _ => panic!("not a sub-agent card"),
    }
}

#[test]
fn transcript_evicts_oldest_completed_messages_over_count_budget() {
    let mut tr = AgentTranscript::with_limits(3, usize::MAX, usize::MAX);

    tr.push_system("first");
    tr.push_system("second");
    tr.push_system("third");
    tr.push_system("fourth");

    assert_eq!(3, tr.messages.len());
    assert_eq!(
        vec!["second", "third", "fourth"],
        tr.messages.iter().map(|message| message.content.as_str()).collect::<Vec<_>>()
    );
}

#[test]
fn transcript_preserves_pending_cards_and_status_when_evicting() {
    let mut tr = AgentTranscript::with_limits(3, usize::MAX, usize::MAX);

    tr.push_system("completed");
    tr.apply(&tool_started("call_pending", "terminal_exec", "sleep 10", "{\"command\":\"sleep 10\"}"), &none());
    tr.apply(
        &RuntimeEvent::NeedUserInput {
            turn_id: tid(),
            question: "确认继续吗？".into(),
            pending_tool_call_id: Some("call_pending".into()),
            tool_name: Some("terminal_exec".into()),
            input: Some(input("sleep 10", "{\"command\":\"sleep 10\"}")),
            pending_tool_calls: Vec::new(),
        },
        &none(),
    );
    tr.apply(
        &RuntimeEvent::Status { turn_id: tid(), title: "ACP 正在响应…".into(), is_done: false },
        &none(),
    );
    tr.push_system("also completed");

    assert_eq!(3, tr.messages.len());
    assert!(tr.messages.iter().any(|message| is_tool_card(message) && tool_data(message).running));
    assert!(tr.messages.iter().any(|message| {
        matches!(&message.variant, MessageVariant::Card(Card::ToolConfirm(d)) if d.status == "pending")
    }));
    assert!(tr
        .messages
        .iter()
        .any(|message| matches!(message.variant, MessageVariant::Status { is_done: false, .. })));
    assert!(!tr.messages.iter().any(|message| message.content == "completed"));
    assert!(!tr.messages.iter().any(|message| message.content == "also completed"));
}

#[test]
fn load_history_applies_budget_without_breaking_tool_pairing() {
    let mut tr = AgentTranscript::with_limits(2, usize::MAX, usize::MAX);

    tr.load_history(
        &vec![
            HistoryItem::User { text: "first".into(), image_count: 0, images_text: String::new() },
            HistoryItem::User { text: "second".into(), image_count: 0, images_text: String::new() },
            HistoryItem::ToolCall {
                call_id: "history_call".into(),
                tool_name: "echo".into(),
                input: input("history", "{\"text\":\"history\"}"),
                arguments_json: "{\"text\":\"history\"}".into(),
                arguments: arguments("{\"text\":\"history\"}"),
            },
            HistoryItem::Observation(observation("history_call", "echo", "done", "history")),
        ],
        None,
    );

    assert_eq!(2, tr.messages.len());
    let card = tr
        .messages
        .iter()
        .find(|message| is_tool_card(message))
        .expect("completed tool card should remain paired");
    let data = tool_data(card);
    assert!(!data.running);
    assert_eq!(Some(true), data.success);
    assert_eq!("done", data.summary);
    assert_eq!("history", data.data_text);
}

#[test]
fn streaming_content_is_bounded_at_utf8_boundaries() {
    let mut tr = AgentTranscript::with_limits(10, 256, 64);

    tr.apply(&delta(&"开头".repeat(20)), &none());
    tr.apply(&delta(&"最新🙂内容".repeat(20)), &none());

    assert_eq!(1, tr.messages.len());
    assert!(tr.messages[0].is_streaming);
    assert!(tr.messages[0].content.len() <= 64);
    assert!(tr.messages[0].content.starts_with(MARKER));
    assert!(tr.messages[0].content.ends_with("内容"));
}

#[test]
fn reasoning_content_is_bounded_separately_from_answer() {
    let mut tr = AgentTranscript::with_limits(10, 256, 64);

    tr.apply(&reasoning(&"推理🙂".repeat(40)), &none());
    tr.apply(&delta("最终回答"), &none());

    assert_eq!(1, tr.messages.len());
    assert!(tr.messages[0].reasoning_content.len() <= 64);
    assert!(tr.messages[0].reasoning_content.starts_with(MARKER));
    assert_eq!("最终回答", tr.messages[0].content);
}

#[test]
fn transcript_text_budget_evicts_oldest_completed_messages() {
    let mut tr = AgentTranscript::with_limits(10, 16, 64);

    tr.push_system("12345678");
    tr.push_system("abcdefgh");
    tr.push_system("ABCDEFGH");

    assert_eq!(2, tr.messages.len());
    assert_eq!("abcdefgh", tr.messages[0].content);
    assert_eq!("ABCDEFGH", tr.messages[1].content);
}

#[test]
fn protected_messages_use_hard_count_fallback() {
    let mut tr = AgentTranscript::with_limits(1, usize::MAX, usize::MAX);

    for index in 0..2 {
        let json = format!("{{\"command\":\"sleep {index}\"}}");
        tr.apply(&tool_started(&format!("call_{index}"), "terminal_exec", "sleep", &json), &none());
    }

    assert_eq!(1, tr.messages.len());
    assert!(tr.tool_call_arguments("call_0").is_none());
    assert!(tr.tool_call_arguments("call_1").is_some());
}

#[test]
fn hard_evicted_tool_call_is_recreated_by_later_observation() {
    let mut tr = AgentTranscript::with_limits(1, usize::MAX, usize::MAX);

    for call_id in ["call_0", "call_1"] {
        let json = format!("{{\"text\":\"{call_id}\"}}");
        tr.apply(&tool_started(call_id, "echo", call_id, &json), &none());
    }
    assert!(tr.find_tool_card("call_0").is_none());

    tr.apply(&RuntimeEvent::ToolCallFinished { turn_id: tid(), call_id: "call_1".into(), success: true }, &none());
    tr.apply(
        &RuntimeEvent::ObservationAdded {
            turn_id: tid(),
            observation: observation("call_0", "echo", "recovered", "late output"),
        },
        &none(),
    );
    tr.apply(&RuntimeEvent::ToolCallFinished { turn_id: tid(), call_id: "call_0".into(), success: true }, &none());

    let data = tr.find_tool_card("call_0").expect("late observation should recreate a completed card");
    assert!(!data.running);
    assert_eq!(Some(true), data.success);
    assert_eq!("recovered", data.summary);
    assert_eq!("late output", data.data_text);
}

#[test]
fn terminal_event_dedup_history_is_bounded() {
    let mut tr = AgentTranscript::new();

    for index in 0..=MAX_TERMINAL_EVENTS {
        assert!(tr.record_terminal_event(TerminalEventKey::Final(format!("turn_{index}"))));
    }

    assert_eq!(MAX_TERMINAL_EVENTS, tr.terminal_event_count());
    assert!(tr.record_terminal_event(TerminalEventKey::Final("turn_0".into())));
}

#[test]
fn completed_subagent_history_and_fields_are_bounded() {
    let mut tr = AgentTranscript::new();

    for index in 0..=MAX_ACTIVE_SUBAGENTS {
        let id = format!("sub_{index}");
        tr.push_subagent(&id, &"n".repeat(MAX_CARD_FIELD_BYTES + 1), "task", &none());
        tr.finish_subagent(&id, true, "done");
    }

    assert_eq!(MAX_ACTIVE_SUBAGENTS, tr.active_subagents().len());
    assert_eq!("sub_1", tr.active_subagents()[0].subagent_id);
    assert!(tr.active_subagents()[0].name.len() <= MAX_CARD_FIELD_BYTES);
}

#[test]
fn hard_evicted_subagent_card_still_updates_active_panel() {
    let mut tr = AgentTranscript::with_limits(1, usize::MAX, usize::MAX);

    for subagent_id in ["sub_0", "sub_1"] {
        tr.apply(
            &RuntimeEvent::SubAgentStarted {
                turn_id: tid(),
                subagent_id: subagent_id.into(),
                name: subagent_id.into(),
                task: "inspect".into(),
            },
            &none(),
        );
    }
    assert!(tr.find_subagent_card("sub_0").is_none());

    tr.apply(
        &RuntimeEvent::SubAgentFinished {
            turn_id: tid(),
            subagent_id: "sub_0".into(),
            success: true,
            summary: "finished after eviction".into(),
        },
        &none(),
    );

    let data = tr
        .active_subagents()
        .iter()
        .find(|data| data.subagent_id == "sub_0")
        .expect("active panel should retain the evicted subagent state");
    assert!(!data.running);
    assert_eq!(Some(true), data.success);
    assert_eq!("finished after eviction", data.summary);
}

#[test]
fn oversized_raw_tool_input_is_not_retained() {
    let mut tr = AgentTranscript::new();
    let json = format!("{{\"command\":\"{}\"}}", "x".repeat(MAX_CACHED_TOOL_INPUT_BYTES + 1));

    tr.push_tool_call("oversized", "terminal_exec", &input("x", &json), &json, &none());

    assert!(tr.tool_call_arguments("oversized").is_none());
    let card = tr.find_tool_card("oversized").expect("tool card");
    assert!(card.input_json.len() <= MAX_CARD_FIELD_BYTES);
}

#[test]
fn acp_permission_card_bounds_structured_fields_and_options() {
    let mut tr = AgentTranscript::new();
    let request = AcpPermissionRequest {
        request_id: "request".into(),
        session_id: "session".into(),
        tool_call_id: Some("call".into()),
        tool_name: "tool".into(),
        summary: "s".repeat(MAX_CARD_FIELD_BYTES + 1),
        details_json: format!("{{\"rawInput\":\"{}\"}}", "d".repeat(MAX_CARD_FIELD_BYTES + 1)),
        options: (0..=MAX_CARD_COLLECTION_ITEMS)
            .map(|index| AcpPermissionOptionData {
                option_id: format!("option_{index}"),
                name: "n".repeat(MAX_CARD_ITEM_FIELD_BYTES + 1),
                kind: "allow_once".into(),
            })
            .collect(),
    };

    tr.push_acp_permission(&request, false, "", &none());

    let card = tr.find_acp_permission_card("request").expect("permission card");
    assert!(card.summary.len() <= MAX_CARD_FIELD_BYTES);
    assert!(card.details_json.len() <= MAX_CARD_FIELD_BYTES);
    assert_eq!(MAX_CARD_COLLECTION_ITEMS, card.options.len());
    assert!(card.options.iter().all(|option| option.name.len() <= MAX_CARD_ITEM_FIELD_BYTES));
}

#[test]
fn streams_then_finalizes_single_assistant_message() {
    let mut tr = AgentTranscript::new();
    tr.apply(&delta("你"), &none());
    tr.apply(&delta("好"), &none());
    tr.apply(
        &RuntimeEvent::AssistantMessage { turn_id: tid(), text: "你好".into(), chart_blocks: Vec::new() },
        &none(),
    );
    assert_eq!(tr.messages.len(), 1);
    assert_eq!(tr.messages[0].content, "你好");
    assert!(!tr.messages[0].is_streaming);
}

#[test]
fn reasoning_delta_is_preserved_when_streaming_segment_closes() {
    let mut tr = AgentTranscript::new();
    tr.apply(&reasoning("先分析"), &none());
    tr.apply(&delta("答案"), &none());
    tr.apply(&completed(), &none());

    assert_eq!(1, tr.messages.len());
    assert_eq!("答案", tr.messages[0].content);
    assert_eq!("先分析", tr.messages[0].reasoning_content);
}

#[test]
fn reasoning_delta_is_preserved_when_final_message_replaces_stream() {
    let mut tr = AgentTranscript::new();
    tr.apply(&reasoning("先分析"), &none());
    tr.apply(&delta("临时答案"), &none());
    tr.apply(
        &RuntimeEvent::AssistantMessage { turn_id: tid(), text: "最终答案".into(), chart_blocks: Vec::new() },
        &none(),
    );

    assert_eq!(1, tr.messages.len());
    assert_eq!("最终答案", tr.messages[0].content);
    assert_eq!("先分析", tr.messages[0].reasoning_content);
}

#[test]
fn load_history_preserves_assistant_reasoning() {
    let mut tr = AgentTranscript::new();
    tr.load_history(
        &vec![HistoryItem::AssistantWithReasoning {
            text: "最终回答".to_string(),
            reasoning: "内部推理".to_string(),
        }],
        None,
    );

    assert_eq!(1, tr.messages.len());
    assert_eq!("最终回答", tr.messages[0].content);
    assert_eq!("内部推理", tr.messages[0].reasoning_content);
}

#[test]
fn pending_status_is_visible_until_assistant_output_arrives() {
    let mut tr = AgentTranscript::new();
    tr.apply(
        &RuntimeEvent::Status { turn_id: tid(), title: "ACP 正在响应…".to_string(), is_done: false },
        &none(),
    );

    assert_eq!(1, tr.messages.len());
    assert!(matches!(
        &tr.messages[0].variant,
        MessageVariant::Status { title, is_done: false } if title == "ACP 正在响应…"
    ));

    tr.apply(&delta("回答"), &none());

    assert_eq!(1, tr.messages.len());
    assert_eq!("回答", tr.messages[0].content);
    assert!(matches!(tr.messages[0].variant, MessageVariant::Text));
}

#[test]
fn pending_status_is_removed_when_turn_completes_without_output() {
    let mut tr = AgentTranscript::new();
    tr.apply(
        &RuntimeEvent::Status { turn_id: tid(), title: "ACP 正在响应…".to_string(), is_done: false },
        &none(),
    );
    tr.apply(&completed(), &none());

    assert!(tr.messages.is_empty());
}

#[test]
fn cancelled_event_closes_stream_and_is_idempotent() {
    let mut tr = AgentTranscript::new();
    tr.apply(&delta("部分回答"), &none());
    let event = RuntimeEvent::TurnCancelled { turn_id: tid(), notice: "任务已取消".into() };

    assert!(tr.apply(&event, &none()));
    assert!(!tr.apply(&event, &none()));

    assert_eq!(2, tr.messages.len());
    assert_eq!("部分回答", tr.messages[0].content);
    assert!(!tr.messages[0].is_streaming);
    assert_eq!("任务已取消", tr.messages[1].content);
    assert!(!tr.messages[1].content.contains("失败"));
}

#[test]
fn load_history_preserves_tool_input_display() {
    let mut tr = AgentTranscript::new();
    let shown = input(
        "rtk cargo check -p ai_chat_view",
        "{\n  \"command\": \"rtk cargo check -p ai_chat_view\",\n  \"token\": \"***\"\n}",
    );

    tr.load_history(
        &vec![HistoryItem::ToolCall {
            call_id: "call".into(),
            tool_name: "exec_command".into(),
            input: shown,
            arguments_json: "{\"command\":\"rtk cargo check -p ai_chat_view\",\"token\":\"secret\"}".into(),
            arguments: arguments("{\"command\":\"rtk cargo check -p ai_chat_view\",\"token\":\"secret\"}"),
        }],
        None,
    );

    assert_eq!(1, tr.messages.len());
    let data = tool_data(&tr.messages[0]);
    assert_eq!("rtk cargo check -p ai_chat_view", data.input_summary);
    assert!(data.input_json.contains("rtk cargo check -p ai_chat_view"));
    assert!(data.input_json.contains("\"token\": \"***\""));
    assert!(!data.input_json.contains("secret"));
}

#[test]
fn load_history_replays_delegate_task_as_subagent_card() {
    let mut tr = AgentTranscript::new();
    let args = "{\"name\":\"inspector\",\"task\":\"检查历史回放是否保留子代理卡片\"}";

    tr.load_history(
        &vec![
            HistoryItem::ToolCall {
                call_id: "call_delegate".into(),
                tool_name: "delegate_task".into(),
                input: input("inspector", args),
                arguments_json: args.into(),
                arguments: arguments(args),
            },
            HistoryItem::Observation(observation(
                "call_delegate",
                "delegate_task",
                "子代理 inspector 完成",
                "历史回放应显示完成态子代理",
            )),
        ],
        None,
    );

    assert_eq!(1, tr.messages.len());
    let data = subagent_data(&tr.messages[0]);
    assert_eq!("call_delegate", data.subagent_id);
    assert_eq!("inspector", data.name);
    assert_eq!("检查历史回放是否保留子代理卡片", data.task);
    assert!(!data.running);
    assert_eq!(Some(true), data.success);
    assert_eq!("历史回放应显示完成态子代理", data.summary);
    assert_eq!(1, tr.active_subagents().len());
    assert_eq!("inspector", tr.active_subagents()[0].name);
}

#[test]
fn delegate_task_without_a_name_replays_as_a_tool_card() {
    let mut tr = AgentTranscript::new();
    let args = "{\"name\":\"  \",\"task\":\"t\"}";
    tr.load_history(
        &vec![HistoryItem::ToolCall {
            call_id: "c".into(),
            tool_name: "delegate_task".into(),
            input: input("", args),
            arguments_json: args.into(),
            arguments: arguments(args),
        }],
        None,
    );
    assert!(is_tool_card(&tr.messages[0]));
}

#[test]
fn tool_call_closes_reasoning_segment_before_followup_answer() {
    let mut tr = AgentTranscript::new();
    tr.apply(&reasoning("先分析工具选择"), &none());
    tr.apply(&tool_started("call_1", "echo", "hi", "{\"text\":\"hi\"}"), &none());
    tr.apply(&RuntimeEvent::ToolCallFinished { turn_id: tid(), call_id: "call_1".into(), success: true }, &none());
    tr.apply(&delta("最终回答"), &none());
    tr.apply(&completed(), &none());

    assert_eq!(3, tr.messages.len());
    assert_eq!("先分析工具选择", tr.messages[0].reasoning_content);
    assert_eq!("", tr.messages[0].content);
    assert!(is_tool_card(&tr.messages[1]));
    assert_eq!("最终回答", tr.messages[2].content);
}

#[test]
fn tool_call_then_observation_updates_same_card() {
    let mut tr = AgentTranscript::new();
    tr.apply(&tool_started("call_9", "echo", "hi", "{\n  \"text\": \"hi\"\n}"), &none());
    assert_eq!(tr.messages.len(), 1);

    tr.apply(
        &RuntimeEvent::ObservationAdded { turn_id: tid(), observation: observation("call_9", "echo", "echo: hi", "hi") },
        &none(),
    );
    tr.apply(&RuntimeEvent::ToolCallFinished { turn_id: tid(), call_id: "call_9".into(), success: true }, &none());

    assert_eq!(tr.messages.len(), 1);
    let data = tool_data(&tr.messages[0]);
    assert!(!data.running);
    assert_eq!(data.success, Some(true));
    assert_eq!(data.summary, "echo: hi");
    assert_eq!(data.input_summary, "hi");
    assert!(data.input_json.contains("\"text\": \"hi\""));
}

#[test]
fn terminal_exec_observation_keeps_long_output_for_card_display() {
    let mut tr = AgentTranscript::new();
    tr.apply(&tool_started("call_terminal", "terminal_exec", "systemctl list-units", "{}"), &none());
    let output = format!("{{\"output\":\"{}\"}}", "x".repeat(MAX_DATA_CHARS + 100));

    tr.apply(
        &RuntimeEvent::ObservationAdded {
            turn_id: tid(),
            observation: observation("call_terminal", "terminal_exec", "ok", &output),
        },
        &none(),
    );

    let data = tool_data(&tr.messages[0]);
    assert!(data.data_text.len() > MAX_DATA_CHARS);
}

#[test]
fn non_terminal_observation_still_uses_generic_card_limit() {
    let mut tr = AgentTranscript::new();
    tr.apply(&tool_started("call_echo", "echo", "hi", "{}"), &none());

    tr.apply(
        &RuntimeEvent::ObservationAdded {
            turn_id: tid(),
            observation: observation("call_echo", "echo", "ok", &"x".repeat(MAX_DATA_CHARS + 100)),
        },
        &none(),
    );

    let data = tool_data(&tr.messages[0]);
    assert_eq!(MAX_DATA_CHARS, data.data_text.len());
}

#[test]
fn tool_observation_records_target_resource_label_on_card() {
    let mut tr = AgentTranscript::new();
    tr.set_resource_labels(vec![
        ("ssh-a".to_string(), "prod-a".to_string()),
        ("ssh-b".to_string(), "prod-b".to_string()),
    ]);
    tr.apply(&tool_started("call_target", "ssh.exec", "df -h", "{}"), &none());
    let mut obs = observation("call_target", "ssh.exec", "ok", "disk ok");
    obs.resource_id = Some("ssh-b".into());

    tr.apply(&RuntimeEvent::ObservationAdded { turn_id: tid(), observation: obs }, &none());

    let data = tool_data(&tr.messages[0]);
    assert_eq!(data.target_id.as_deref(), Some("ssh-b"));
    assert_eq!(data.target_label.as_deref(), Some("prod-b"));
}

#[test]
fn need_user_input_renders_as_tool_confirm_card() {
    let mut tr = AgentTranscript::new();

    tr.apply(
        &RuntimeEvent::NeedUserInput {
            turn_id: tid(),
            question: "确认执行工具 `db_schema` 吗?".into(),
            pending_tool_call_id: Some("call_confirm".into()),
            tool_name: Some("db_schema".into()),
            input: Some(input("show tables", "{\n  \"sql\": \"show tables\"\n}")),
            pending_tool_calls: Vec::new(),
        },
        &none(),
    );

    assert_eq!(1, tr.messages.len());
    let data = confirm_data(&tr.messages[0]);
    assert_eq!(data.call_id, "call_confirm");
    assert_eq!(data.tool_name, "db_schema");
    assert_eq!(data.input_summary, "show tables");
    assert!(data.input_json.contains("\"sql\": \"show tables\""));
    assert_eq!(data.question, "确认执行工具 `db_schema` 吗?");
    assert_eq!(data.status, "pending");
}

#[test]
fn public_mcp_safety_confirmation_renders_full_arguments_and_mode_hint() {
    let mut tr = AgentTranscript::new();
    let question = "Safety confirmation: Call Execute in terminal";
    tr.push_public_mcp_approval(
        "public-mcp-approval-1",
        "terminal.exec",
        &input(
            "du -xhd1 / 2>/dev/null | sort -h",
            "{\n  \"target\": \"haiwai comi\",\n  \"command\": \"du -xhd1 / 2>/dev/null | sort -h\"\n}",
        ),
        question,
        &none(),
    );

    assert_eq!(1, tr.messages.len());
    let data = confirm_data(&tr.messages[0]);
    assert_eq!(data.call_id, "public-mcp-approval-1");
    assert_eq!(data.tool_name, "terminal.exec");
    assert_eq!(data.input_summary, "du -xhd1 / 2>/dev/null | sort -h");
    assert!(data.input_json.contains("haiwai comi"));
    assert_eq!(question, data.question);
    assert!(tr.has_pending_tool_confirm("public-mcp-approval-1"));
}

fn permission_request(options: Vec<AcpPermissionOptionData>) -> AcpPermissionRequest {
    AcpPermissionRequest {
        request_id: "session:call".into(),
        session_id: "session".into(),
        tool_call_id: Some("call".into()),
        tool_name: "Write file".into(),
        summary: "ACP Agent 请求执行工具：Write file".into(),
        details_json: "{\n  \"path\": \"/tmp/a\"\n}".into(),
        options,
    }
}

#[test]
fn acp_permission_request_renders_and_resolves_inside_message_flow() {
    let request = permission_request(vec![
        AcpPermissionOptionData { option_id: "reject".into(), name: "Reject".into(), kind: "reject_once".into() },
        AcpPermissionOptionData { option_id: "allow".into(), name: "Allow once".into(), kind: "allow_once".into() },
    ]);
    let notice = "需要安全确认：ACP Agent 请求执行工具：Write file";
    let mut transcript = AgentTranscript::new();

    transcript.push_acp_permission(&request, true, notice, &none());

    assert_eq!(1, transcript.messages.len());
    assert!(matches!(transcript.messages[0].variant, MessageVariant::Card(Card::AcpPermission(_))));
    assert!(transcript.has_pending_acp_permission(&request.request_id));

    transcript.resolve_acp_permission(&request.request_id, &request.options[1]);
    let data = acp_data(&transcript.messages[0]);
    assert_eq!(notice, data.summary);
    assert_eq!("approved", data.status);
    assert_eq!("Allow once", data.selected_option_name);
    assert!(!transcript.has_pending_acp_permission(&request.request_id));
}

#[test]
fn acp_permission_rejection_and_cancellation_are_recorded() {
    let request = permission_request(vec![AcpPermissionOptionData {
        option_id: "reject".into(),
        name: "Reject".into(),
        kind: "reject_always".into(),
    }]);
    let mut transcript = AgentTranscript::new();
    transcript.push_acp_permission(&request, false, "", &none());
    transcript.push_acp_permission(&request, false, "", &none());
    assert_eq!(1, transcript.messages.len());
    transcript.resolve_acp_permission(&request.request_id, &request.options[0]);
    assert_eq!("rejected", acp_data(&transcript.messages[0]).status);
    transcript.cancel_acp_permission(&request.request_id);
    assert_eq!("cancelled", acp_data(&transcript.messages[0]).status);
    assert_eq!("", acp_data(&transcript.messages[0]).selected_option_name);
}

#[test]
fn acp_permission_card_does_not_claim_second_approval_in_auto_mode() {
    let request = permission_request(vec![AcpPermissionOptionData {
        option_id: "allow".into(),
        name: "Allow once".into(),
        kind: "allow_once".into(),
    }]);
    let mut transcript = AgentTranscript::new();

    transcript.push_acp_permission(&request, false, "unused notice", &none());

    let data = acp_data(&transcript.messages[0]);
    assert_eq!(request.summary, data.summary);
}

#[test]
fn need_user_input_renders_batch_tool_confirm_items() {
    let mut tr = AgentTranscript::new();
    let item = |call_id: &str, command: &str| ToolConfirmItemData {
        call_id: call_id.to_string(),
        tool_name: "ssh_exec".to_string(),
        input_summary: command.to_string(),
        input_json: format!("{{\n  \"command\": \"{command}\"\n}}"),
    };

    tr.apply(
        &RuntimeEvent::NeedUserInput {
            turn_id: tid(),
            question: "确认执行 2 个工具吗?".into(),
            pending_tool_call_id: Some("call_a".into()),
            tool_name: Some("ssh.exec".into()),
            input: Some(input("rm -rf /tmp/a", "{\n  \"command\": \"rm -rf /tmp/a\"\n}")),
            pending_tool_calls: vec![item("call_a", "rm -rf /tmp/a"), item("call_b", "rm -rf /tmp/b")],
        },
        &none(),
    );

    let data = confirm_data(&tr.messages[0]);
    assert_eq!("call_a", data.call_id);
    assert_eq!(2, data.items.len());
    assert_eq!("call_a", data.items[0].call_id);
    assert_eq!("ssh_exec", data.items[0].tool_name);
    assert_eq!("rm -rf /tmp/a", data.items[0].input_summary);
    assert_eq!("call_b", data.items[1].call_id);
    assert_eq!("rm -rf /tmp/b", data.items[1].input_summary);
}

#[test]
fn need_user_input_falls_back_to_existing_tool_call_input() {
    let mut tr = AgentTranscript::new();

    tr.apply(
        &tool_started(
            "call_confirm",
            "db_query",
            "select count(*) from users",
            "{\n  \"sql\": \"select count(*) from users\"\n}",
        ),
        &none(),
    );
    tr.apply(
        &RuntimeEvent::NeedUserInput {
            turn_id: tid(),
            question: "确认执行工具 `db_query` 吗?".into(),
            pending_tool_call_id: Some("call_confirm".into()),
            tool_name: Some("db_query".into()),
            input: None,
            pending_tool_calls: Vec::new(),
        },
        &none(),
    );

    assert_eq!(2, tr.messages.len());
    let data = confirm_data(&tr.messages[1]);
    assert_eq!("select count(*) from users", data.input_summary);
    assert!(data.input_json.contains("\"sql\": \"select count(*) from users\""));
}

#[test]
fn tool_approval_resolved_updates_confirm_card_status() {
    let mut tr = AgentTranscript::new();

    tr.apply(
        &RuntimeEvent::NeedUserInput {
            turn_id: tid(),
            question: "确认执行工具 `db_schema` 吗?".into(),
            pending_tool_call_id: Some("call_confirm".into()),
            tool_name: Some("db_schema".into()),
            input: Some(input("show tables", "{\n  \"sql\": \"show tables\"\n}")),
            pending_tool_calls: Vec::new(),
        },
        &none(),
    );
    tr.apply(
        &RuntimeEvent::ToolApprovalResolved { turn_id: tid(), call_id: "call_confirm".into(), approved: true },
        &none(),
    );

    assert_eq!(confirm_data(&tr.messages[0]).status, "approved");
}

#[test]
fn same_turn_accepts_distinct_tool_approval_requests() {
    let mut tr = AgentTranscript::new();

    tr.apply(
        &RuntimeEvent::NeedUserInput {
            turn_id: tid(),
            question: "确认第一条命令吗？".into(),
            pending_tool_call_id: Some("call_first".into()),
            tool_name: Some("terminal_exec".into()),
            input: Some(input("kill 334", "{\n  \"command\": \"kill 334\"\n}")),
            pending_tool_calls: Vec::new(),
        },
        &none(),
    );
    tr.apply(
        &RuntimeEvent::ToolApprovalResolved { turn_id: tid(), call_id: "call_first".into(), approved: true },
        &none(),
    );
    let second = RuntimeEvent::NeedUserInput {
        turn_id: tid(),
        question: "确认第二条命令吗？".into(),
        pending_tool_call_id: Some("call_second".into()),
        tool_name: Some("terminal_exec".into()),
        input: Some(input(
            "nohup ping 127.0.0.1 > /tmp/ping.log 2>&1 &",
            "{\n  \"command\": \"nohup ping 127.0.0.1 > /tmp/ping.log 2>&1 &\"\n}",
        )),
        pending_tool_calls: Vec::new(),
    };

    assert!(tr.apply(&second, &none()));
    assert!(!tr.apply(&second, &none()));
    assert_eq!(2, tr.messages.len());

    let first = confirm_data(&tr.messages[0]);
    let second = confirm_data(&tr.messages[1]);
    assert_eq!("approved", first.status);
    assert_eq!("call_second", second.call_id);
    assert_eq!("pending", second.status);
}

#[test]
fn streaming_text_is_split_around_tool_card_when_delta_continues() {
    let mut tr = AgentTranscript::new();
    tr.apply(&delta("读取文件前"), &none());
    tr.apply(&tool_started("call_9", "Read", "/tmp/a.txt", "{\"path\":\"/tmp/a.txt\"}"), &none());
    tr.apply(&delta("继续输出"), &none());

    assert_eq!(tr.messages.len(), 3);
    assert_eq!(tr.messages[0].content, "读取文件前");
    assert!(!tr.messages[0].is_streaming);
    assert!(is_tool_card(&tr.messages[1]));
    assert_eq!(tr.messages[2].content, "继续输出");
    assert!(tr.messages[2].is_streaming);

    tr.apply(&completed(), &none());
    assert_eq!(tr.messages[2].content, "继续输出");
    assert!(!tr.messages[2].is_streaming);
}

#[test]
fn status_is_removed_when_assistant_text_starts() {
    let mut tr = AgentTranscript::new();
    tr.apply(&RuntimeEvent::Status { turn_id: tid(), title: "思考中…".into(), is_done: false }, &none());
    tr.apply(&delta("开始回答"), &none());

    assert_eq!(tr.messages.len(), 1);
    assert_eq!(tr.messages[0].content, "开始回答");
    assert!(tr.messages[0].is_streaming);
}

fn plan(goal: &str, steps: Vec<PlanStep>) -> Plan {
    Plan { goal: goal.to_string(), status: PlanStatus::Running, steps }
}

fn step(title: &str, description: &str) -> PlanStep {
    PlanStep {
        title: title.to_string(),
        description: description.to_string(),
        status: StepStatus::Pending,
        risk: "low".to_string(),
        tool_hint: None,
    }
}

#[test]
fn plan_goes_to_latest_plan_not_messages() {
    let mut tr = AgentTranscript::new();
    tr.apply(
        &RuntimeEvent::PlanUpdated {
            turn_id: tid(),
            plan: plan("排查慢查询", vec![step("查看连接数", "SHOW PROCESSLIST")]),
        },
        &none(),
    );
    assert!(tr.messages.is_empty());
    let data = tr.latest_plan().expect("latest_plan 应已填充");
    assert_eq!(data.goal, "排查慢查询");
    assert_eq!(data.status, "running");
    assert_eq!(data.steps.len(), 1);
    assert_eq!(data.steps[0].status, "pending");
}

#[test]
fn subagent_events_update_same_card() {
    let mut tr = AgentTranscript::new();
    tr.apply(
        &RuntimeEvent::SubAgentStarted {
            turn_id: tid(),
            subagent_id: "sub_1".into(),
            name: "inspector".into(),
            task: "检查 agent runtime".into(),
        },
        &none(),
    );
    tr.apply(
        &RuntimeEvent::SubAgentUpdated { turn_id: tid(), subagent_id: "sub_1".into(), summary: "正在读取事件流".into() },
        &none(),
    );
    assert_eq!(tr.active_subagents().len(), 1);
    assert_eq!(tr.active_subagents()[0].summary, "正在读取事件流");

    tr.apply(
        &RuntimeEvent::SubAgentFinished {
            turn_id: tid(),
            subagent_id: "sub_1".into(),
            success: true,
            summary: "发现 reasoning 未转发".into(),
        },
        &none(),
    );
    assert_eq!(tr.active_subagents().len(), 1);
    assert!(!tr.active_subagents()[0].running);
    assert_eq!(tr.active_subagents()[0].success, Some(true));

    assert_eq!(tr.messages.len(), 1);
    let data = subagent_data(&tr.messages[0]);
    assert_eq!(data.name, "inspector");
    assert_eq!(data.task, "检查 agent runtime");
    assert!(!data.running);
    assert_eq!(data.success, Some(true));
    assert_eq!(data.summary, "发现 reasoning 未转发");
}

#[test]
fn turn_started_preserves_latest_plan() {
    let mut tr = AgentTranscript::new();
    tr.apply(&RuntimeEvent::PlanUpdated { turn_id: tid(), plan: plan("目标", vec![step("step", "")]) }, &none());
    assert!(tr.latest_plan().is_some());
    tr.apply(&RuntimeEvent::TurnStarted { turn_id: tid() }, &none());
    assert!(tr.latest_plan().is_some());
}

fn char_index(text: &str, needle: &str) -> usize {
    let byte = text.find(needle).unwrap();
    text[..byte].chars().count()
}

#[test]
fn final_assistant_message_expands_chart_json_code_block_to_card() {
    let mut tr = AgentTranscript::new();
    let text = "下面是图表:\n\n```chart-json\n{\"chart_type\":\"bar\",\"data\":[{\"x\":\"Jan\",\"y\":1}]}\n```\n\n结论如上。";
    let start = char_index(text, "```chart-json");
    let end = char_index(text, "```\n\n结论") + 3;
    let code = "{\"chart_type\":\"bar\",\"data\":[{\"x\":\"Jan\",\"y\":1}]}".to_string();

    tr.apply(
        &RuntimeEvent::AssistantMessage {
            turn_id: tid(),
            text: text.to_string(),
            chart_blocks: vec![ChartBlock { start, end, code }],
        },
        &none(),
    );

    assert_eq!(3, tr.messages.len());
    assert_eq!("下面是图表:", tr.messages[0].content.trim());
    assert!(matches!(&tr.messages[1].variant, MessageVariant::Card(Card::Other(kind)) if kind == "chart-json"));
    assert!(tr.messages[1].content.contains("\"chart_type\":\"bar\""));
    assert_eq!("结论如上。", tr.messages[2].content.trim());
}

#[test]
fn non_chart_json_code_block_remains_assistant_markdown() {
    let mut tr = AgentTranscript::new();
    let text = "```json\n{\"ok\":true}\n```";

    tr.apply(
        &RuntimeEvent::AssistantMessage { turn_id: tid(), text: text.to_string(), chart_blocks: Vec::new() },
        &none(),
    );

    assert_eq!(1, tr.messages.len());
    assert_eq!(text, tr.messages[0].content);
    assert!(matches!(tr.messages[0].variant, MessageVariant::Text));
}

#[test]
fn chart_blocks_that_overlap_are_ignored() {
    let mut tr = AgentTranscript::new();
    let blocks = vec![
        ChartBlock { start: 0, end: 4, code: "a".into() },
        ChartBlock { start: 2, end: 6, code: "b".into() },
    ];
    tr.apply(
        &RuntimeEvent::AssistantMessage { turn_id: tid(), text: "0123456789".into(), chart_blocks: blocks },
        &none(),
    );
    assert_eq!(1, tr.messages.len());
    assert_eq!("0123456789", tr.messages[0].content);
}

#[test]
fn streamed_chart_is_expanded_when_the_turn_completes() {
    let mut tr = AgentTranscript::new();
    tr.apply(&delta("intro ```chart-json\n{}\n``` outro"), &none());
    let text = "intro ```chart-json\n{}\n``` outro";
    let start = char_index(text, "```chart-json");
    let end = char_index(text, " outro");
    tr.apply(&completed(), &vec![ChartBlock { start, end, code: "{}".into() }]);
    assert_eq!(3, tr.messages.len());
    assert_eq!("intro", tr.messages[0].content);
    assert_eq!("{}", tr.messages[1].content);
    assert_eq!("outro", tr.messages[2].content);
}

#[test]
fn failed_turn_drops_the_stream_marker_and_adds_the_notice() {
    let mut tr = AgentTranscript::new();
    tr.apply(&delta("partial"), &none());
    assert!(tr.apply(&RuntimeEvent::TurnFailed { turn_id: tid(), notice: "failed: boom".into() }, &none()));
    assert_eq!(2, tr.messages.len());
    assert_eq!("failed: boom", tr.messages[1].content);
    assert!(!tr.apply(&RuntimeEvent::TurnCompleted { turn_id: tid() }, &none()));
    tr.apply(&delta("new"), &none());
    assert_eq!(3, tr.messages.len());
}

#[test]
fn user_images_replace_the_text_and_clear_empties_the_conversation() {
    let mut tr = AgentTranscript::new();
    tr.push_user("hello", 0, "hello (+1 image)");
    tr.push_user("look", 2, "look (+2 images)");
    assert_eq!("hello", tr.messages[0].content);
    assert_eq!("look (+2 images)", tr.messages[1].content);
    tr.set_resource_labels(vec![("a".into(), "A".into())]);
    tr.clear();
    assert!(tr.messages.is_empty());
    assert!(tr.latest_plan().is_none());
    assert_eq!(0, tr.terminal_event_count());
}

#[test]
fn delegate_arguments_need_a_name_and_a_task() {
    assert_eq!(
        Some(("inspector".to_string(), "read logs".to_string())),
        delegate_task_args(&arguments("{\"name\":\" inspector \",\"task\":\"read logs\\n\"}"))
    );
    assert_eq!(None, delegate_task_args(&arguments("{\"name\":\"inspector\"}")));
    assert_eq!(None, delegate_task_args(&arguments("{\"name\":\"inspector\",\"task\":7}")));
    assert_eq!(None, delegate_task_args(&arguments("[1, 2]")));
}

fn question_event(question: &str) -> RuntimeEvent {
    RuntimeEvent::NeedUserInput {
        turn_id: tid(),
        question: question.into(),
        pending_tool_call_id: Some("call".into()),
        tool_name: None,
        input: None,
        pending_tool_calls: Vec::new(),
    }
}

#[test]
fn awaiting_input_key_holds_the_std_hash_of_the_question() {
    let mut hasher = std::collections::hash_map::DefaultHasher::new();
    std::hash::Hash::hash("确认继续吗？", &mut hasher);
    let expected = std::hash::Hasher::finish(&hasher);

    match terminal_event_key(&question_event("确认继续吗？")) {
        Some(TerminalEventKey::AwaitingInput { turn_id, call_id, question_hash }) => {
            assert_eq!(tid(), turn_id);
            assert_eq!(Some("call".to_string()), call_id);
            assert_eq!(expected, question_hash);
        },
        other => panic!("expected an awaiting-input key, got {:?}", other),
    }
    let a = terminal_event_key(&question_event("one"));
    let b = terminal_event_key(&question_event("two"));
    assert!(!matches!((a, b), (
        Some(TerminalEventKey::AwaitingInput { question_hash: x, .. }),
        Some(TerminalEventKey::AwaitingInput { question_hash: y, .. }),
    ) if x == y));
}

#[test]
fn loading_history_ignores_what_the_transcript_held_before() {
    let items = vec![
        HistoryItem::User { text: "hello".into(), image_count: 0, images_text: String::new() },
        HistoryItem::Assistant("hi".into()),
    ];
    let mut fresh = AgentTranscript::new();
    let mut used = AgentTranscript::new();
    used.push_system("old");
    used.apply(&delta("streaming"), &none());
    used.apply(&tool_started("c1", "echo", "s", "{}"), &none());

    fresh.load_history(&items, None);
    used.load_history(&items, None);

    let shape = |tr: &AgentTranscript| {
        tr.messages
            .iter()
            .map(|m| (m.content.clone(), m.reasoning_content.clone(), m.is_streaming))
            .collect::<Vec<_>>()
    };
    assert_eq!(shape(&fresh), shape(&used));
    assert_eq!(2, used.messages.len());
    assert!(used.latest_plan().is_none());
    assert!(used.active_subagents().is_empty());
}
