use onet_agent_core::resources::{
    add_resource_to_pool, apply_mentioned_resources, apply_resource_source, kind_icon,
    refresh_pool_resource_metadata, remove_resource_from_pool, resource_source_options,
    ResourceContext, ResourceKind, ResourceRef, SourceLabels, SourceOption,
};

fn labels() -> SourceLabels {
    SourceLabels {
        current: "Current".to_string(),
        resource_pool: "Resource pool".to_string(),
        all: "All".to_string(),
        manual: "Manual".to_string(),
        workspace: "Workspace".to_string(),
        tag: "Tag".to_string(),
        no_workspace_source: "No workspace source".to_string(),
        no_tag_source: "No tag source".to_string(),
    }
}

fn res(id: &str, kind: ResourceKind, label: &str) -> ResourceRef {
    ResourceRef::new(id, kind, label)
}

fn source_option<'a>(options: &'a [SourceOption], id: &str) -> &'a SourceOption {
    options.iter().find(|option| option.id == id).unwrap()
}

fn current_label(pool: &ResourceContext) -> Option<&str> {
    pool.current_resource().map(|resource| resource.label.as_str())
}

#[test]
fn applying_mentioned_resource_adds_from_catalog_and_sets_default() {
    let mut resources = ResourceContext::new();
    let catalog = vec![
        res("ssh-a", ResourceKind::Ssh, "prod-a"),
        res("db-a", ResourceKind::Mysql, "prod-db"),
    ];
    let mentions = vec!["db-a".to_string()];

    assert!(apply_mentioned_resources(&mut resources, &catalog, &mentions));

    assert_eq!(1, resources.resources.len());
    assert_eq!(Some("prod-db"), current_label(&resources));
}

#[test]
fn resource_pool_item_uses_specific_icons_for_known_other_kinds() {
    assert_eq!(kind_icon(&ResourceKind::Other("rdp".into())), "RD");
    assert_eq!(kind_icon(&ResourceKind::Other("vnc".into())), "VN");
    assert_eq!(kind_icon(&ResourceKind::Other("port-forwarding".into())), "PF");
    assert_eq!(kind_icon(&ResourceKind::Other("telnet".into())), "OT");
    assert_eq!(kind_icon(&ResourceKind::Postgres), "DB");
    assert_eq!(kind_icon(&ResourceKind::Mongo), "MG");
}

#[test]
fn resource_source_options_mark_all_when_pool_matches_catalog() {
    let pool = ResourceContext::new()
        .with_resource(res("ssh-a", ResourceKind::Ssh, "prod-a"))
        .with_resource(res("redis-a", ResourceKind::Redis, "cache"));
    let catalog = pool.resources.clone();

    let options = resource_source_options(&pool, &catalog, &labels());

    assert!(source_option(&options, "all").selected);
    assert_eq!(source_option(&options, "all").count, 2);
    assert!(!source_option(&options, "current").selected);
}

#[test]
fn resource_source_options_mark_manual_for_mixed_subset() {
    let pool = ResourceContext::new()
        .with_resource(res("ssh-a", ResourceKind::Ssh, "prod-a"))
        .with_resource(res("redis-a", ResourceKind::Redis, "cache"));
    let catalog = vec![
        res("ssh-a", ResourceKind::Ssh, "prod-a"),
        res("ssh-b", ResourceKind::Ssh, "prod-b"),
        res("redis-a", ResourceKind::Redis, "cache"),
    ];

    let options = resource_source_options(&pool, &catalog, &labels());

    assert!(source_option(&options, "manual").selected);
    assert_eq!(source_option(&options, "ssh").count, 2);
    assert_eq!(source_option(&options, "redis").count, 1);
}

#[test]
fn resource_source_options_mark_a_type_and_the_current_target() {
    let catalog = vec![
        res("ssh-a", ResourceKind::Ssh, "prod-a"),
        res("ssh-a", ResourceKind::Ssh, "prod-a"),
        res("redis-a", ResourceKind::Redis, "cache"),
    ];
    let typed = ResourceContext::new().with_resource(res("redis-a", ResourceKind::Redis, "cache"));
    let options = resource_source_options(&typed, &catalog, &labels());
    assert!(source_option(&options, "current").selected);
    assert!(!source_option(&options, "redis").selected);
    assert_eq!(1, source_option(&options, "ssh").count);
    assert_eq!(10, options.len());
    assert!(!source_option(&options, "workspace").enabled);
    assert!(!source_option(&options, "tag").enabled);

    let mut two = ResourceContext::new()
        .with_resource(res("redis-a", ResourceKind::Redis, "cache"))
        .with_resource(res("redis-a", ResourceKind::Redis, "cache"));
    two.current = None;
    let options = resource_source_options(&two, &catalog, &labels());
    assert!(source_option(&options, "redis").selected);
    assert!(!source_option(&options, "manual").selected);
    assert_eq!(0, source_option(&options, "current").count);
}

#[test]
fn apply_resource_source_all_replaces_pool_with_catalog() {
    let mut pool = ResourceContext::new().with_resource(res("ssh-a", ResourceKind::Ssh, "prod-a"));
    let catalog = vec![
        res("ssh-a", ResourceKind::Ssh, "prod-a"),
        res("ssh-b", ResourceKind::Ssh, "prod-b"),
    ];

    assert!(apply_resource_source(&mut pool, &catalog, "all"));
    assert_eq!(2, pool.resources.len());
    assert_eq!(Some("prod-a"), current_label(&pool));
}

#[test]
fn apply_resource_source_ssh_selects_only_ssh_resources() {
    let mut pool = ResourceContext::new().with_resource(res("redis-a", ResourceKind::Redis, "cache"));
    let catalog = vec![
        res("ssh-a", ResourceKind::Ssh, "prod-a"),
        res("redis-a", ResourceKind::Redis, "cache"),
    ];

    assert!(apply_resource_source(&mut pool, &catalog, "ssh"));
    assert_eq!(1, pool.resources.len());
    assert_eq!(Some("prod-a"), current_label(&pool));
}

#[test]
fn apply_resource_source_ignores_unknown_and_unchanged_sources() {
    let mut pool = ResourceContext::new().with_resource(res("ssh-a", ResourceKind::Ssh, "prod-a"));
    let catalog = vec![res("ssh-a", ResourceKind::Ssh, "prod-a")];
    assert!(!apply_resource_source(&mut pool, &catalog, "workspace"));
    assert!(!apply_resource_source(&mut pool, &catalog, "all"));
    assert!(!apply_resource_source(&mut pool, &catalog, "db"));
    assert!(!apply_resource_source(&mut pool, &catalog, "current"));
}

#[test]
fn add_resource_to_pool_uses_catalog_resource() {
    let mut pool = ResourceContext::new().with_resource(res("ssh-a", ResourceKind::Ssh, "prod-a"));
    let catalog = vec![
        res("ssh-a", ResourceKind::Ssh, "prod-a"),
        res("ssh-b", ResourceKind::Ssh, "prod-b"),
    ];

    assert!(add_resource_to_pool(&mut pool, &catalog, "ssh-b"));
    assert_eq!(2, pool.resources.len());
    assert_eq!(Some("prod-a"), current_label(&pool));
    assert!(!add_resource_to_pool(&mut pool, &catalog, "ssh-b"));
    assert!(!add_resource_to_pool(&mut pool, &catalog, "missing"));
}

#[test]
fn mentioned_catalog_resources_are_added_to_pool_and_set_default() {
    let mut pool = ResourceContext::new().with_resource(res("db-a", ResourceKind::Mysql, "prod-db"));
    let catalog = vec![
        res("db-a", ResourceKind::Mysql, "prod-db"),
        res("ssh-a", ResourceKind::Ssh, "prod-a"),
        res("ssh-b", ResourceKind::Ssh, "prod-b"),
    ];
    let mentions = vec!["ssh-a".to_string(), "ssh-b".to_string()];

    assert!(apply_mentioned_resources(&mut pool, &catalog, &mentions));
    assert_eq!(3, pool.resources.len());
    assert_eq!(Some("prod-a"), current_label(&pool));
    assert!(pool.resources.iter().any(|resource| resource.label == "prod-b"));
}

#[test]
fn remove_default_resource_reassigns_default_target() {
    let mut pool = ResourceContext::new()
        .with_resource(res("ssh-a", ResourceKind::Ssh, "prod-a"))
        .with_resource(res("ssh-b", ResourceKind::Ssh, "prod-b"));

    assert!(remove_resource_from_pool(&mut pool, "ssh-a"));
    assert_eq!(1, pool.resources.len());
    assert_eq!(Some("prod-b"), current_label(&pool));
    assert!(!remove_resource_from_pool(&mut pool, "ssh-a"));
}

#[test]
fn pool_metadata_follows_the_catalog() {
    let mut pool = ResourceContext::new().with_resource(res("ssh-a", ResourceKind::Ssh, "old"));
    let catalog = vec![res("ssh-a", ResourceKind::Ssh, "renamed")];
    assert!(refresh_pool_resource_metadata(&mut pool, &catalog));
    assert_eq!("renamed", pool.resources[0].label);
    assert!(!refresh_pool_resource_metadata(&mut pool, &catalog));
}

#[test]
fn source_options_carry_labels_and_disabled_reasons() {
    let catalog = vec![res("ssh-a", ResourceKind::Ssh, "prod-a")];
    let pool = ResourceContext::new();
    let options = resource_source_options(&pool, &catalog, &labels());
    let names: Vec<&str> = options.iter().map(|o| o.label.as_str()).collect();
    assert_eq!(
        vec!["Current", "Resource pool", "All", "SSH", "DB", "Redis", "Terminal", "Manual", "Workspace", "Tag"],
        names
    );
    assert_eq!(Some("No workspace source"), source_option(&options, "workspace").disabled_reason.as_deref());
    assert_eq!(Some("No tag source"), source_option(&options, "tag").disabled_reason.as_deref());
    assert!(!source_option(&options, "tag").enabled);
    assert_eq!(None, source_option(&options, "ssh").disabled_reason);
}
