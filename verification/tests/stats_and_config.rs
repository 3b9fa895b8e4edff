use gearbot::config_store::{effective_config, ConfigStore};
use gearbot::guild_config::{GuildConfig, LogStyle, MessageLogs, PermissionOverride};
use gearbot::permissions::GearBotPermissions;
use gearbot::stats::{
    classify_message, shard_transition, GatewayEvent, MessageCounters, MessageKind, ShardState,
    ShardTracker,
};

#[test]
fn message_classification() {
    assert_eq!(
        classify_message(false, false, false),
        MessageKind::UserMessage
    );
    assert_eq!(classify_message(true, true, false), MessageKind::OwnMessage);
    assert_eq!(
        classify_message(true, false, true),
        MessageKind::WebhookMessage
    );
    assert_eq!(
        classify_message(true, false, false),
        MessageKind::OtherBotMessage
    );
}

#[test]
fn shard_counts_follow_state_changes() {
    let mut tracker = ShardTracker::new();
    tracker.shard_state_change(0, ShardState::Connecting);
    tracker.shard_state_change(1, ShardState::Connecting);
    assert_eq!(tracker.get_state_metric(ShardState::Connecting), 2);

    tracker.shard_state_change(0, ShardState::Ready);
    assert_eq!(tracker.get_state_metric(ShardState::Connecting), 1);
    assert_eq!(tracker.get_state_metric(ShardState::Ready), 1);

    tracker.shard_state_change(1, ShardState::Ready);
    tracker.shard_state_change(1, ShardState::Ready);
    assert_eq!(tracker.get_state_metric(ShardState::Connecting), 0);
    assert_eq!(tracker.get_state_metric(ShardState::Ready), 2);
    assert_eq!(tracker.get_state_metric(ShardState::Disconnected), 0);
}

#[test]
fn message_counters_count_each_kind() {
    let mut counters = MessageCounters::new();
    counters.new_message(false, false, false);
    counters.new_message(false, false, false);
    counters.new_message(true, true, false);
    counters.new_message(true, false, true);
    counters.new_message(true, false, false);
    assert_eq!(counters.user_messages, 2);
    assert_eq!(counters.own_messages, 1);
    assert_eq!(counters.webhook_messages, 1);
    assert_eq!(counters.other_bot_messages, 1);
}

#[test]
fn gateway_events_move_shard_states() {
    assert_eq!(
        shard_transition(GatewayEvent::Resumed),
        Some(ShardState::Ready)
    );
    assert_eq!(
        shard_transition(GatewayEvent::ShardDisconnected),
        Some(ShardState::Disconnected)
    );
    assert_eq!(shard_transition(GatewayEvent::Other), None);

    let mut tracker = ShardTracker::new();
    tracker.update_stats(3, GatewayEvent::ShardConnecting);
    tracker.update_stats(3, GatewayEvent::Ready);
    tracker.update_stats(3, GatewayEvent::Other);
    assert_eq!(tracker.get_state_metric(ShardState::Ready), 1);
    assert_eq!(tracker.get_state_metric(ShardState::Connecting), 0);
}

fn custom_config(prefix: &str) -> GuildConfig {
    GuildConfig {
        prefix: prefix.to_owned(),
        log_style: LogStyle::Embed,
        message_logs: MessageLogs {
            enabled: true,
            ignored_users: vec![1],
            ignored_channels: vec![],
            ignore_bots: false,
        },
        language: "nl_NL".to_owned(),
        permission_overrides: vec![(
            9u64,
            PermissionOverride {
                granted: GearBotPermissions::empty(),
                revoked: GearBotPermissions::empty(),
            },
        )],
    }
}

#[test]
fn store_returns_what_was_set() {
    let store = ConfigStore::new();
    assert!(store.get_config(5).is_none());
    store.set_config(5, custom_config("$"));
    let got = store.get_config(5).unwrap();
    assert_eq!(got.prefix, "$");
    assert_eq!(got.language, "nl_NL");
    assert!(store.get_config(6).is_none());
}

#[test]
fn first_contact_gets_the_default_config() {
    let store = ConfigStore::new();
    let config = effective_config(store.get_config(123));
    assert_eq!(config.prefix, "!");
    assert!(matches!(config.log_style, LogStyle::Text));
    assert!(!config.message_logs.enabled);
    assert!(config.message_logs.ignore_bots);
    assert_eq!(config.language, "en_US");
    assert!(config.permission_overrides.is_empty());
}

#[test]
fn stored_config_wins_over_default() {
    let store = ConfigStore::new();
    store.set_config(7, custom_config("$$"));
    let config = effective_config(store.get_config(7));
    assert_eq!(config.prefix, "$$");
    assert!(matches!(config.log_style, LogStyle::Embed));
}
