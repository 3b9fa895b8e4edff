//! The per-guild configuration store: a sharded concurrent map read on
//! every resolution and evaluation, written on config edits. Many
//! dispatches read and write it concurrently, so the store itself is an
//! outside concurrent map used through trusted calls; what any returned
//! value means is decided by the verified code around it.

use vstd::prelude::*;

use crate::guild_config::{spec_is_default, GuildConfig};

verus! {

#[verifier::external_type_specification]
#[verifier::external_body]
#[verifier::reject_recursive_types(K)]
#[verifier::reject_recursive_types(V)]
#[verifier::reject_recursive_types(S)]
pub struct ExDashMap<K, V, S>(dashmap::DashMap<K, V, S>);

/// Per-guild configuration, shared by every in-flight dispatch. The
/// map is sharded internally: readers and writers of unrelated guilds
/// do not serialize behind one lock.
pub struct ConfigStore {
    map: dashmap::DashMap<u64, GuildConfig>,
}

impl ConfigStore {
    /// Relies on dashmap::DashMap::new: a fresh store holds no guild.
    #[verifier::external_body]
    pub fn new() -> ConfigStore {
        ConfigStore { map: dashmap::DashMap::new() }
    }

    /// Relies on dashmap::DashMap::get: hands back a clone of the
    /// configuration stored for this guild, if one is stored. Other
    /// dispatches may write concurrently, so two reads of one guild may
    /// differ; nothing more than that is promised here, and callers
    /// treat the result through `effective_config`.
    #[verifier::external_body]
    pub fn get_config(&self, guild_id: u64) -> Option<GuildConfig> {
        self.map.get(&guild_id).map(|r| r.value().clone())
    }

    /// Relies on dashmap::DashMap::insert: stores the configuration
    /// for this guild, replacing any previous one.
    #[verifier::external_body]
    pub fn set_config(&self, guild_id: u64, config: GuildConfig) {
        self.map.insert(guild_id, config);
    }
}

/// The configuration in force given what the store returned: the
/// stored configuration, or the default on first guild contact.
pub fn effective_config(stored: Option<GuildConfig>) -> (r: GuildConfig)
    ensures
        stored matches Some(c) ==> r == c,
        stored is None ==> spec_is_default(r),
{
    match stored {
        Option::Some(c) => c,
        Option::None => GuildConfig::default(),
    }
}

} // verus!
