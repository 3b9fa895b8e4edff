use gearbot::dispatch::{plan_after_fetch, plan_message, DispatchPlan};
use gearbot::guild_config::PermissionOverride;
use gearbot::nodes::CommandGroup;
use gearbot::permissions::{GearBotPermissions, BASIC_GROUP, MODERATION_GROUP};
use gearbot::registry::{build, CommandDescriptor};

fn registry() -> gearbot::nodes::RootNode {
    let descriptors = vec![
        CommandDescriptor {
            name: "ping".to_owned(),
            aliases: vec![],
            group: CommandGroup::Basic,
            bot_permissions: 0,
            command_permission: GearBotPermissions::empty(),
            handler: Some(1),
            children: vec![],
        },
        CommandDescriptor {
            name: "ban".to_owned(),
            aliases: vec![],
            group: CommandGroup::Moderation,
            bot_permissions: 0x4,
            command_permission: GearBotPermissions::empty(),
            handler: Some(2),
            children: vec![],
        },
    ];
    build(descriptors).unwrap()
}

#[test]
fn allowed_command_plans_an_execution() {
    let root = registry();
    let overrides: Vec<(u64, PermissionOverride)> = vec![];
    let bits = GearBotPermissions::from_bits_truncate(BASIC_GROUP);
    match plan_message(&root, "?ping now", "?", &overrides, 42, bits, None) {
        DispatchPlan::Execute(handler, args) => {
            assert_eq!(handler, 1);
            assert_eq!(args, "now");
        }
        _ => panic!("expected an execution plan"),
    }
}

#[test]
fn denied_command_plans_a_denial() {
    let root = registry();
    let overrides: Vec<(u64, PermissionOverride)> = vec![];
    let bits = GearBotPermissions::empty();
    assert!(matches!(
        plan_message(&root, "?ping", "?", &overrides, 42, bits, None),
        DispatchPlan::Denied
    ));
}

#[test]
fn non_command_plans_a_miss() {
    let root = registry();
    let overrides: Vec<(u64, PermissionOverride)> = vec![];
    let bits = GearBotPermissions::from_bits_truncate(BASIC_GROUP);
    assert!(matches!(
        plan_message(&root, "hello there", "?", &overrides, 42, bits, None),
        DispatchPlan::Miss
    ));
    assert!(matches!(
        plan_message(&root, "?frobnicate", "?", &overrides, 42, bits, None),
        DispatchPlan::Miss
    ));
}

#[test]
fn missing_bot_data_asks_for_a_fetch() {
    let root = registry();
    let overrides: Vec<(u64, PermissionOverride)> = vec![];
    let bits = GearBotPermissions::from_bits_truncate(MODERATION_GROUP);
    assert!(matches!(
        plan_message(&root, "?ban spammer", "?", &overrides, 42, bits, None),
        DispatchPlan::NeedsBotPermissions
    ));
}

#[test]
fn fetched_data_settles_the_plan() {
    let root = registry();
    let overrides: Vec<(u64, PermissionOverride)> = vec![];
    let bits = GearBotPermissions::from_bits_truncate(MODERATION_GROUP);
    match plan_after_fetch(&root, "?ban spammer", "?", &overrides, 42, bits, Some(0x4)) {
        DispatchPlan::Execute(handler, args) => {
            assert_eq!(handler, 2);
            assert_eq!(args, "spammer");
        }
        _ => panic!("expected an execution plan"),
    }
    assert!(matches!(
        plan_after_fetch(&root, "?ban spammer", "?", &overrides, 42, bits, Some(0)),
        DispatchPlan::Denied
    ));
}

#[test]
fn failed_fetch_fails_closed() {
    let root = registry();
    let overrides: Vec<(u64, PermissionOverride)> = vec![];
    let bits = GearBotPermissions::from_bits_truncate(MODERATION_GROUP);
    assert!(matches!(
        plan_after_fetch(&root, "?ban spammer", "?", &overrides, 42, bits, None),
        DispatchPlan::Denied
    ));
    assert!(matches!(
        plan_after_fetch(&root, "no prefix", "?", &overrides, 42, bits, None),
        DispatchPlan::Miss
    ));
}
