use onet_agent_core::cards::SubAgentCardData;
use onet_agent_core::composer::ToolExecutionMode;
use onet_agent_core::composer_context::{
    build_composer_context, build_context, composer_plan_items, resource_type_filters,
    target_from_resource, ContextLabels,
};
use onet_agent_core::events::{PlanCardData, PlanStepData};
use onet_agent_core::resources::{ResourceContext, ResourceKind, ResourceRef, ResourceScope};

fn labels() -> ContextLabels {
    ContextLabels {
        target: "Target".to_string(),
        no_default_target: "No default target".to_string(),
        all: "All".to_string(),
        auto: "Auto".to_string(),
        readonly: "Read only".to_string(),
        manual: "Manual confirmation".to_string(),
    }
}

#[test]
fn target_maps_label_kind_icon() {
    let r = ResourceRef::new("c1", ResourceKind::Redis, "prod-redis");
    let t = target_from_resource(&r);
    assert_eq!(t.label.as_str(), "prod-redis");
    assert_eq!(t.kind.as_str(), "redis");
    assert_eq!(t.icon.as_str(), "RD");
}

#[test]
fn build_context_without_target_is_empty() {
    let labels = labels();
    let ctx = build_context(&ResourceContext::new(), ToolExecutionMode::Auto, &labels);
    assert!(ctx.target.is_none());
    assert!(ctx.scopes.is_empty());
    assert!(ctx.capabilities.is_empty());
    assert_eq!(ctx.execution_mode_label.as_str(), labels.auto.as_str());
}

#[test]
fn build_context_with_target_fills_scopes_and_caps() {
    let labels = labels();
    let resources = ResourceContext::new().with_resource(
        ResourceRef::new("c1", ResourceKind::Mysql, "prod-mysql")
            .with_scope(ResourceScope::new("database", "Database", "ai_app"))
            .with_scope(ResourceScope::new("schema", "Schema", "public")),
    );
    let ctx = build_context(&resources, ToolExecutionMode::ReadOnly, &labels);
    assert_eq!(ctx.target.unwrap().label.as_str(), "prod-mysql");
    assert_eq!(ctx.scopes.len(), 2);
    assert_eq!(ctx.scopes[0].value.as_str(), "ai_app");
    assert_eq!(ctx.scopes[1].value.as_str(), "public");
    assert_eq!(ctx.execution_mode_label.as_str(), labels.readonly.as_str());
}

#[test]
fn build_context_marks_current_resource_as_default_target() {
    let resources = ResourceContext::new()
        .with_resource(ResourceRef::new("ssh-a", ResourceKind::Ssh, "prod-a"))
        .with_resource(ResourceRef::new("ssh-b", ResourceKind::Ssh, "prod-b"));

    let context = build_context(&resources, ToolExecutionMode::Auto, &labels());

    assert_eq!(context.resource_pool.total_resources, 2);
    assert_eq!(context.resource_pool.default_target_id.as_deref(), Some("ssh-a"));
    assert_eq!(context.resource_pool.default_label.as_str(), "prod-a");
}

#[test]
fn build_context_counts_resource_types_for_filters() {
    let resources = ResourceContext::new()
        .with_resource(ResourceRef::new("ssh-a", ResourceKind::Ssh, "prod-a"))
        .with_resource(ResourceRef::new("db-a", ResourceKind::Postgres, "prod-db"))
        .with_resource(ResourceRef::new("redis-a", ResourceKind::Redis, "cache"));

    let context = build_context(&resources, ToolExecutionMode::Auto, &labels());

    let filters = context
        .resource_type_filters
        .iter()
        .map(|filter| (filter.id.as_str(), filter.count))
        .collect::<Vec<_>>();

    assert_eq!(vec![("all", 3), ("postgres", 1), ("redis", 1), ("ssh", 1)], filters);
}

#[test]
fn composer_context_includes_running_subagents() {
    let subagents = vec![
        SubAgentCardData {
            subagent_id: "sub_1".into(),
            name: "inspector".into(),
            task: "检查事件流".into(),
            running: true,
            success: None,
            summary: "正在读取事件".into(),
        },
        SubAgentCardData {
            subagent_id: "sub_2".into(),
            name: "done".into(),
            task: "已完成任务".into(),
            running: false,
            success: Some(true),
            summary: "完成".into(),
        },
    ];

    let ctx = build_composer_context(
        &ResourceContext::new(),
        ToolExecutionMode::Auto,
        None,
        &subagents,
        &labels(),
    );

    assert_eq!(ctx.subagent_items.len(), 2);
    assert_eq!(ctx.subagent_items[0].name.as_str(), "inspector");
    assert_eq!(ctx.subagent_items[0].task.as_str(), "检查事件流");
    assert_eq!(ctx.subagent_items[0].summary.as_str(), "正在读取事件");
    assert_eq!(ctx.subagent_items[0].status.as_str(), "running");
    assert_eq!(ctx.subagent_items[1].name.as_str(), "done");
    assert_eq!(ctx.subagent_items[1].status.as_str(), "completed");
}

#[test]
fn composer_context_lists_plan_steps_with_details() {
    let plan = PlanCardData {
        goal: "上线检查".to_string(),
        status: "running".to_string(),
        steps: vec![PlanStepData {
            title: "检查连接".to_string(),
            description: "确认服务可达".to_string(),
            status: "running".to_string(),
            risk: "只读".to_string(),
            tool: Some("ping".to_string()),
        }],
    };

    let ctx = build_composer_context(
        &ResourceContext::new(),
        ToolExecutionMode::Manual,
        Some(&plan),
        &Vec::new(),
        &labels(),
    );

    assert_eq!(ctx.plan_items.len(), 1);
    assert_eq!(ctx.plan_items[0].title.as_str(), "检查连接");
    assert_eq!(ctx.plan_items[0].description.as_str(), "确认服务可达");
    assert_eq!(ctx.plan_items[0].risk.as_str(), "只读");
    assert_eq!(ctx.plan_items[0].tool.as_deref(), Some("ping"));
    assert_eq!(ctx.execution_mode_label.as_str(), "Manual confirmation");
    assert!(composer_plan_items(None).is_empty());
}

#[test]
fn type_filters_sort_kind_names_and_count_repeats() {
    let resources = ResourceContext::new()
        .with_resource(ResourceRef::new("t1", ResourceKind::Terminal, "local"))
        .with_resource(ResourceRef::new("m1", ResourceKind::Mysql, "orders"))
        .with_resource(ResourceRef::new("x1", ResourceKind::Other("rdp".into()), "desk"))
        .with_resource(ResourceRef::new("m2", ResourceKind::Mysql, "users"))
        .with_resource(ResourceRef::new("x2", ResourceKind::Other("Zeta".into()), "zz"));

    let filters = resource_type_filters(&resources, &labels());

    let summary = filters
        .iter()
        .map(|f| (f.id.as_str(), f.label.as_str(), f.count, f.selected))
        .collect::<Vec<_>>();
    assert_eq!(
        vec![
            ("all", "All", 5, true),
            ("Zeta", "ZETA", 1, false),
            ("mysql", "MYSQL", 2, false),
            ("rdp", "RDP", 1, false),
            ("terminal", "TERMINAL", 1, false),
        ],
        summary
    );
}

#[test]
fn empty_pool_has_only_the_all_filter_and_no_default_target() {
    let labels = labels();
    let ctx = build_context(&ResourceContext::new(), ToolExecutionMode::Auto, &labels);
    assert_eq!(ctx.resource_type_filters.len(), 1);
    assert_eq!(ctx.resource_type_filters[0].count, 0);
    assert_eq!(ctx.resource_pool.default_target_id, None);
    assert_eq!(ctx.resource_pool.default_label, labels.no_default_target);
}
