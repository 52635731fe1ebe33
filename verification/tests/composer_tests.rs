use onet_agent_core::cards::SubAgentCardData;
use onet_agent_core::composer::{
    compact_agent_label, persistence_title_from_input, provider_model_option_id, provider_models,
    refreshed_model_selection, runtime_tool_execution_mode, selected_model_from_config,
    selected_provider_model, settings_tool_execution_mode, subagent_status_for_composer,
    tool_execution_mode_from_id, ToolExecutionMode,
};
use onet_agent_core::settings::AiChatToolExecutionMode;

#[test]
fn session_title_uses_first_filled_line_and_caps_length() {
    assert_eq!("Check disk", persistence_title_from_input("\n  \n  Check disk  \nmore", "Task"));
    assert_eq!("Task", persistence_title_from_input(" \n\t\n", "Task"));
    let long = "a".repeat(45);
    let expected = format!("{}…", "a".repeat(40));
    assert_eq!(expected, persistence_title_from_input(&long, "Task"));
    assert_eq!("a".repeat(40), persistence_title_from_input(&"a".repeat(40), "Task"));
    assert_eq!("line", persistence_title_from_input("line\r\nnext", "Task"));
}

#[test]
fn compact_agent_label_cuts_long_names_with_dots() {
    assert_eq!("Codex", compact_agent_label("Codex", 10));
    assert_eq!("Codexs ...", compact_agent_label("Codexs Code Agent", 8));
    assert_eq!("...", compact_agent_label("abc", 0));
}

#[test]
fn subagent_status_reports_running_failed_and_completed() {
    let mut d = SubAgentCardData {
        subagent_id: "s".into(),
        name: "n".into(),
        task: "t".into(),
        running: true,
        success: None,
        summary: String::new(),
    };
    assert_eq!("running", subagent_status_for_composer(&d));
    d.running = false;
    d.success = Some(false);
    assert_eq!("failed", subagent_status_for_composer(&d));
    d.success = Some(true);
    assert_eq!("completed", subagent_status_for_composer(&d));
    d.success = None;
    assert_eq!("completed", subagent_status_for_composer(&d));
}

#[test]
fn provider_model_option_ids_embed_the_provider_id() {
    assert_eq!("provider:12:gpt-4o", provider_model_option_id(12, "gpt-4o"));
    assert_eq!("provider:-3:m", provider_model_option_id(-3, "m"));
    assert_eq!("provider:0:", provider_model_option_id(0, ""));
}

#[test]
fn provider_models_keep_main_model_first_without_repeats() {
    let models = vec!["b".to_string(), String::new(), "a".to_string(), "b".to_string()];
    assert_eq!(vec!["a", "b"], provider_models("a", &models));
    assert_eq!(vec!["b", "a"], provider_models("", &models));
}

#[test]
fn tool_execution_modes_map_ids_and_settings_both_ways() {
    assert_eq!(ToolExecutionMode::ReadOnly, tool_execution_mode_from_id("readonly"));
    assert_eq!(ToolExecutionMode::Manual, tool_execution_mode_from_id("manual"));
    assert_eq!(ToolExecutionMode::Auto, tool_execution_mode_from_id("whatever"));
    for mode in [ToolExecutionMode::Auto, ToolExecutionMode::ReadOnly, ToolExecutionMode::Manual] {
        assert_eq!(mode, runtime_tool_execution_mode(settings_tool_execution_mode(mode)));
    }
    assert_eq!(
        AiChatToolExecutionMode::Manual,
        settings_tool_execution_mode(runtime_tool_execution_mode(AiChatToolExecutionMode::Manual))
    );
}

#[test]
fn model_selection_prefers_previous_then_configured_then_first() {
    let ids = vec!["m1".to_string(), "m2".to_string(), "m3".to_string()];
    assert_eq!((Some(1), Some(1)), refreshed_model_selection(Some("m2"), Some("m3"), &ids));
    assert_eq!((Some(2), None), refreshed_model_selection(Some("gone"), Some("m3"), &ids));
    assert_eq!((Some(0), None), refreshed_model_selection(None, Some("gone"), &ids));
    assert_eq!((None, None), refreshed_model_selection(Some("m1"), None, &Vec::new()));
    assert_eq!(Some(2), selected_model_from_config(Some("m3"), &ids));
    assert_eq!(Some(0), selected_model_from_config(None, &ids));
    assert_eq!(Some(1), selected_provider_model(&vec![false, true, true]));
    assert_eq!(Some(0), selected_provider_model(&vec![false, false]));
    assert_eq!(None, selected_provider_model(&Vec::new()));
}

#[test]
fn execution_mode_ids_map_to_runtime_modes() {
    assert_eq!(ToolExecutionMode::Auto, tool_execution_mode_from_id("auto"));
    assert_eq!(ToolExecutionMode::ReadOnly, tool_execution_mode_from_id("readonly"));
    assert_eq!(ToolExecutionMode::Manual, tool_execution_mode_from_id("manual"));
    assert_eq!(ToolExecutionMode::Auto, tool_execution_mode_from_id("nope"));
}

#[test]
fn settings_execution_mode_round_trips_to_runtime_mode() {
    assert_eq!(
        ToolExecutionMode::Auto,
        runtime_tool_execution_mode(AiChatToolExecutionMode::Auto)
    );
    assert_eq!(
        ToolExecutionMode::ReadOnly,
        runtime_tool_execution_mode(AiChatToolExecutionMode::ReadOnly)
    );
    assert_eq!(
        ToolExecutionMode::Manual,
        runtime_tool_execution_mode(AiChatToolExecutionMode::Manual)
    );
    assert_eq!(
        AiChatToolExecutionMode::Auto,
        settings_tool_execution_mode(ToolExecutionMode::Auto)
    );
}

#[test]
fn refreshed_models_keep_current_selection_when_it_still_exists() {
    let options = vec!["p:old".to_string(), "p:new".to_string()];

    let (selected, retained) = refreshed_model_selection(Some("p:old"), Some("p:new"), &options);

    assert_eq!(selected.map(|i| options[i].as_str()), Some("p:old"));
    assert!(retained.is_some());
}

#[test]
fn refreshed_models_fall_back_when_current_selection_was_removed() {
    let options = vec!["p:new".to_string()];

    let (selected, retained) = refreshed_model_selection(Some("p:removed"), Some("p:new"), &options);

    assert_eq!(selected.map(|i| options[i].as_str()), Some("p:new"));
    assert!(retained.is_none());
}
