//! Per-guild configuration: the command prefix, logging preferences and
//! per-user permission overrides. Owned separately from the registry,
//! created on first guild contact and updated on config edits.

use vstd::prelude::*;

use crate::permissions::GearBotPermissions;

verus! {

/// A per-guild grant or revocation of specific permission bits for one
/// user, applied on top of the bot-wide defaults.
#[derive(Clone, Copy, PartialEq, Eq, Structural, Debug)]
pub struct PermissionOverride {
    /// Bits explicitly granted to the user in this guild.
    pub granted: GearBotPermissions,
    /// Bits explicitly revoked from the user in this guild. A revoked
    /// bit wins over both defaults and grants.
    pub revoked: GearBotPermissions,
}

#[derive(Clone, Debug)]
pub struct MessageLogs {
    pub enabled: bool,
    pub ignored_users: Vec<u64>,
    pub ignored_channels: Vec<u64>,
    pub ignore_bots: bool,
}

#[derive(Clone, Copy, PartialEq, Eq, Structural, Debug)]
pub enum LogStyle {
    Text,
    Embed,
}

#[derive(Clone, Debug)]
pub struct LogChannelConfig {}

#[derive(Clone, Debug)]
pub struct GuildConfig {
    pub prefix: String,
    pub log_style: LogStyle,
    pub message_logs: MessageLogs,
    /// Language tag for localized replies, e.g. "en_US".
    pub language: String,
    /// Per-user permission overrides, keyed by user id. The first entry
    /// for a user is the one in force.
    pub permission_overrides: Vec<(u64, PermissionOverride)>,
}

/// The configuration a guild gets on first contact, before any edit:
/// "!" prefix, text-style logs, message logging off, no overrides.
pub open spec fn spec_is_default(r: GuildConfig) -> bool {
    &&& r.prefix@ == "!"@
    &&& r.log_style == LogStyle::Text
    &&& !r.message_logs.enabled
    &&& r.message_logs.ignored_users@ == Seq::<u64>::empty()
    &&& r.message_logs.ignored_channels@ == Seq::<u64>::empty()
    &&& r.message_logs.ignore_bots
    &&& r.language@ == "en_US"@
    &&& r.permission_overrides@ == Seq::<(u64, PermissionOverride)>::empty()
}

impl Default for GuildConfig {
    fn default() -> (r: Self)
        ensures
            spec_is_default(r),
    {
        let ignored_users: Vec<u64> = Vec::new();
        let ignored_channels: Vec<u64> = Vec::new();
        let permission_overrides: Vec<(u64, PermissionOverride)> = Vec::new();
        GuildConfig {
            prefix: "!".to_owned(),
            log_style: LogStyle::Text,
            message_logs: MessageLogs {
                enabled: false,
                ignored_users,
                ignored_channels,
                ignore_bots: true,
            },
            language: "en_US".to_owned(),
            permission_overrides,
        }
    }
}

} // verus!
