use gearbot::nodes::CommandGroup;
use gearbot::permissions::{GearBotPermissions, READ_CONFIG};
use gearbot::registry::{build, CommandDescriptor, ConfigError};
use gearbot::resolver::resolve;

fn leaf(name: &str, aliases: &[&str], group: CommandGroup, handler: u64) -> CommandDescriptor {
    CommandDescriptor {
        name: name.to_owned(),
        aliases: aliases.iter().map(|a| (*a).to_owned()).collect(),
        group,
        bot_permissions: 0,
        command_permission: GearBotPermissions::empty(),
        handler: Some(handler),
        children: vec![],
    }
}

fn sample_registry() -> Vec<CommandDescriptor> {
    vec![
        leaf("ping", &[], CommandGroup::Basic, 1),
        leaf("ban", &["b", "banhammer"], CommandGroup::Moderation, 2),
        CommandDescriptor {
            name: "config".to_owned(),
            aliases: vec!["cfg".to_owned()],
            group: CommandGroup::GuildAdmin,
            bot_permissions: 0,
            command_permission: GearBotPermissions::from_bits_truncate(READ_CONFIG),
            handler: None,
            children: vec![
                leaf("get", &[], CommandGroup::GuildAdmin, 3),
                leaf("set", &["update"], CommandGroup::GuildAdmin, 4),
            ],
        },
    ]
}

#[test]
fn ban_resolves_with_args() {
    let root = build(sample_registry()).unwrap();
    let (node, args) = resolve(&root, "?ban user123", "?").unwrap();
    assert_eq!(node.name, "ban");
    assert_eq!(node.handler, Some(2));
    assert_eq!(args, "user123");
}

#[test]
fn unknown_command_resolves_to_nothing() {
    let root = build(sample_registry()).unwrap();
    assert!(resolve(&root, "?nosuchcommand", "?").is_none());
}

#[test]
fn missing_prefix_is_not_a_command() {
    let root = build(sample_registry()).unwrap();
    assert!(resolve(&root, "ban user123", "?").is_none());
    assert!(resolve(&root, "!ban user123", "?").is_none());
}

#[test]
fn prefix_match_is_case_sensitive_token_match_is_not() {
    let root = build(sample_registry()).unwrap();
    let (node, args) = resolve(&root, "?BaN User123", "?").unwrap();
    assert_eq!(node.name, "ban");
    assert_eq!(args, "User123");
}

#[test]
fn canonical_name_and_every_alias_reach_the_same_node() {
    let root = build(sample_registry()).unwrap();
    let by_name = resolve(&root, "?ban x", "?").unwrap();
    let by_short = resolve(&root, "?b x", "?").unwrap();
    let by_long = resolve(&root, "?BANHAMMER x", "?").unwrap();
    assert_eq!(by_name.0.name, "ban");
    assert_eq!(by_short.0.name, "ban");
    assert_eq!(by_long.0.name, "ban");
    assert_eq!(by_name.0.handler, by_short.0.handler);
    assert_eq!(by_name.0.handler, by_long.0.handler);
}

#[test]
fn resolution_descends_into_subcommands() {
    let root = build(sample_registry()).unwrap();
    let (node, args) = resolve(&root, "?config set prefix !", "?").unwrap();
    assert_eq!(node.name, "set");
    assert_eq!(node.handler, Some(4));
    assert_eq!(args, "prefix !");

    let (node, args) = resolve(&root, "?cfg UPDATE prefix", "?").unwrap();
    assert_eq!(node.name, "set");
    assert_eq!(args, "prefix");
}

#[test]
fn unmatched_subtoken_stops_at_the_namespace_node() {
    let root = build(sample_registry()).unwrap();
    let (node, args) = resolve(&root, "?config bogus", "?").unwrap();
    assert_eq!(node.name, "config");
    assert_eq!(node.handler, None);
    assert_eq!(args, "bogus");
}

#[test]
fn longer_prefix_is_stripped_whole() {
    let root = build(sample_registry()).unwrap();
    let (node, args) = resolve(&root, "gb!ping", "gb!").unwrap();
    assert_eq!(node.name, "ping");
    assert_eq!(args, "");
}

#[test]
fn bare_prefix_resolves_to_nothing() {
    let root = build(sample_registry()).unwrap();
    assert!(resolve(&root, "?", "?").is_none());
    assert!(resolve(&root, "? ", "?").is_none());
    assert!(resolve(&root, "", "?").is_none());
}

#[test]
fn duplicate_name_in_scope_is_a_config_error() {
    let descriptors = vec![
        leaf("ping", &[], CommandGroup::Basic, 1),
        leaf("PING", &[], CommandGroup::Basic, 2),
    ];
    assert_eq!(build(descriptors).unwrap_err(), ConfigError::DuplicateKey);
}

#[test]
fn alias_colliding_with_name_is_a_config_error() {
    let descriptors = vec![
        leaf("ban", &[], CommandGroup::Moderation, 1),
        leaf("block", &["Ban"], CommandGroup::Moderation, 2),
    ];
    assert_eq!(build(descriptors).unwrap_err(), ConfigError::DuplicateKey);
}

#[test]
fn duplicate_alias_in_child_scope_is_a_config_error() {
    let descriptors = vec![CommandDescriptor {
        name: "config".to_owned(),
        aliases: vec![],
        group: CommandGroup::GuildAdmin,
        bot_permissions: 0,
        command_permission: GearBotPermissions::empty(),
        handler: None,
        children: vec![
            leaf("get", &["g"], CommandGroup::GuildAdmin, 1),
            leaf("grab", &["G"], CommandGroup::GuildAdmin, 2),
        ],
    }];
    assert_eq!(build(descriptors).unwrap_err(), ConfigError::DuplicateKey);
}

#[test]
fn childless_namespace_is_a_config_error() {
    let mut d = leaf("config", &[], CommandGroup::GuildAdmin, 0);
    d.handler = None;
    assert_eq!(build(vec![d]).unwrap_err(), ConfigError::ChildlessNamespace);
}

#[test]
fn same_name_in_different_scopes_is_fine() {
    let descriptors = vec![
        leaf("get", &[], CommandGroup::Basic, 9),
        CommandDescriptor {
            name: "config".to_owned(),
            aliases: vec![],
            group: CommandGroup::GuildAdmin,
            bot_permissions: 0,
            command_permission: GearBotPermissions::empty(),
            handler: None,
            children: vec![leaf("get", &[], CommandGroup::GuildAdmin, 3)],
        },
    ];
    assert!(build(descriptors).is_ok());
}

#[test]
fn by_group_lists_commands_in_order() {
    let root = build(sample_registry()).unwrap();
    assert_eq!(root.by_group(CommandGroup::Basic), vec![0]);
    assert_eq!(root.by_group(CommandGroup::Moderation), vec![1]);
    assert_eq!(root.by_group(CommandGroup::GuildAdmin), vec![2]);
    assert_eq!(root.by_group(CommandGroup::BotAdmin), Vec::<usize>::new());
}
