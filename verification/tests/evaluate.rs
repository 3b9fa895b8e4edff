use gearbot::evaluator::{evaluate, override_for, reevaluate_with_fetched};
use gearbot::guild_config::PermissionOverride;
use gearbot::nodes::{CommandGroup, CommandNode, PermMode};
use gearbot::permissions::{GearBotPermissions, MODERATION_GROUP, PING_COMMAND, USERINFO_COMMAND};

fn moderation_node(bot_permissions: u64) -> CommandNode {
    CommandNode {
        name: "userinfo".to_owned(),
        handler: Some(7),
        children: vec![],
        sub_lookup: vec![],
        bot_permissions,
        command_permission: GearBotPermissions::from_bits_truncate(USERINFO_COMMAND),
        group: CommandGroup::Moderation,
        aliases: vec![],
    }
}

fn deny_override(bits: u64) -> PermissionOverride {
    PermissionOverride {
        granted: GearBotPermissions::empty(),
        revoked: GearBotPermissions::from_bits_truncate(bits),
    }
}

fn grant_override(bits: u64) -> PermissionOverride {
    PermissionOverride {
        granted: GearBotPermissions::from_bits_truncate(bits),
        revoked: GearBotPermissions::empty(),
    }
}

#[test]
fn denied_without_any_relevant_bit() {
    let node = moderation_node(0);
    let bits = GearBotPermissions::from_bits_truncate(PING_COMMAND);
    let overrides: Vec<(u64, PermissionOverride)> = vec![];
    assert_eq!(evaluate(bits, &node, &overrides, 42, None), PermMode::DENIED);
}

#[test]
fn specific_action_bit_allows() {
    let node = moderation_node(0);
    let bits = GearBotPermissions::from_bits_truncate(USERINFO_COMMAND);
    let overrides: Vec<(u64, PermissionOverride)> = vec![];
    assert_eq!(evaluate(bits, &node, &overrides, 42, None), PermMode::ALLOWED);
}

#[test]
fn category_bit_alone_allows() {
    let node = moderation_node(0);
    let bits = GearBotPermissions::from_bits_truncate(MODERATION_GROUP);
    let overrides: Vec<(u64, PermissionOverride)> = vec![];
    assert_eq!(evaluate(bits, &node, &overrides, 42, None), PermMode::ALLOWED);
}

#[test]
fn override_deny_beats_category_allow() {
    let node = moderation_node(0);
    let bits = GearBotPermissions::from_bits_truncate(MODERATION_GROUP);
    let overrides = vec![(42u64, deny_override(MODERATION_GROUP))];
    assert_eq!(evaluate(bits, &node, &overrides, 42, None), PermMode::DENIED);
    assert_eq!(evaluate(bits, &node, &overrides, 99, None), PermMode::ALLOWED);
}

#[test]
fn override_grant_elevates_denied_user() {
    let node = moderation_node(0);
    let bits = GearBotPermissions::empty();
    let overrides = vec![(42u64, grant_override(USERINFO_COMMAND))];
    assert_eq!(evaluate(bits, &node, &overrides, 42, None), PermMode::ALLOWED);
}

#[test]
fn revocation_beats_grant_of_the_same_bit() {
    let node = moderation_node(0);
    let bits = GearBotPermissions::empty();
    let both = PermissionOverride {
        granted: GearBotPermissions::from_bits_truncate(USERINFO_COMMAND),
        revoked: GearBotPermissions::from_bits_truncate(USERINFO_COMMAND),
    };
    let overrides = vec![(42u64, both)];
    assert_eq!(evaluate(bits, &node, &overrides, 42, None), PermMode::DENIED);
}

#[test]
fn first_override_for_a_user_is_in_force() {
    let overrides = vec![
        (7u64, grant_override(MODERATION_GROUP)),
        (7u64, deny_override(MODERATION_GROUP)),
    ];
    let found = override_for(&overrides, 7).unwrap();
    assert_eq!(found.granted.bits(), MODERATION_GROUP);
    assert_eq!(found.revoked.bits(), 0);
    assert!(override_for(&overrides, 8).is_none());
}

#[test]
fn missing_bot_snapshot_yields_maybe() {
    let node = moderation_node(0x8);
    let bits = GearBotPermissions::from_bits_truncate(MODERATION_GROUP);
    let overrides: Vec<(u64, PermissionOverride)> = vec![];
    assert_eq!(evaluate(bits, &node, &overrides, 42, None), PermMode::MAYBE);
    assert_eq!(
        evaluate(bits, &node, &overrides, 42, Some(0x8)),
        PermMode::ALLOWED
    );
    assert_eq!(
        evaluate(bits, &node, &overrides, 42, Some(0x4)),
        PermMode::DENIED
    );
}

#[test]
fn failed_fetch_is_fail_closed() {
    let node = moderation_node(0x8);
    let bits = GearBotPermissions::from_bits_truncate(MODERATION_GROUP);
    let overrides: Vec<(u64, PermissionOverride)> = vec![];
    assert_eq!(
        reevaluate_with_fetched(bits, &node, &overrides, 42, None),
        PermMode::DENIED
    );
    assert_eq!(
        reevaluate_with_fetched(bits, &node, &overrides, 42, Some(0x8)),
        PermMode::ALLOWED
    );
}

#[test]
fn group_permission_bits() {
    assert_eq!(CommandGroup::Basic.get_permission().bits(), 0x002);
    assert_eq!(CommandGroup::GuildAdmin.get_permission().bits(), 0x080);
    assert_eq!(CommandGroup::Moderation.get_permission().bits(), 0x800);
    assert_eq!(CommandGroup::BotAdmin.get_permission().bits(), 0x001);
}
