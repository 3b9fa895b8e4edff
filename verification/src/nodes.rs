//! The immutable command forest: shared nodes reachable through a flat
//! per-scope lookup that maps every canonical name and every alias to the
//! same node slot. A scope stores its nodes once, in order, and addresses
//! them by index; aliases add lookup entries, never copies.

use vstd::prelude::*;

use crate::permissions::{
    GearBotPermissions, BASIC_GROUP, BOT_ADMIN, GUILD_ADMIN_GROUP, MODERATION_GROUP,
};
use crate::text::ci_eq;

verus! {

/// First case-insensitive match of `key` in a scope's lookup table, as
/// the stored node index.
pub open spec fn spec_find(pairs: Seq<(String, usize)>, key: Seq<char>) -> Option<usize>
    decreases pairs.len(),
{
    if pairs.len() == 0 {
        None
    } else if ci_eq(pairs.first().0@, key) {
        Some(pairs.first().1)
    } else {
        spec_find(pairs.drop_first(), key)
    }
}

/// A found index is always one of the stored entries.
pub proof fn lemma_spec_find_entry(pairs: Seq<(String, usize)>, key: Seq<char>)
    ensures
        spec_find(pairs, key) matches Some(u) ==> exists|i: int|
            0 <= i < pairs.len() && (#[trigger] pairs[i]).1 == u,
    decreases pairs.len(),
{
    if pairs.len() > 0 {
        if ci_eq(pairs.first().0@, key) {
            assert(pairs[0].1 == pairs.first().1);
        } else {
            lemma_spec_find_entry(pairs.drop_first(), key);
            if spec_find(pairs, key) is Some {
                let i = choose|i: int|
                    0 <= i < pairs.drop_first().len() && (#[trigger] pairs.drop_first()[i]).1
                        == spec_find(pairs, key)->Some_0;
                assert(pairs[i + 1].1 == pairs.drop_first()[i].1);
            }
        }
    }
}

/// Coarse permission grouping assigned to every command node and checked
/// as a unit alongside the node's own permission bits.
#[derive(Clone, Copy, Hash, Eq, PartialEq, Structural, Debug)]
pub enum CommandGroup {
    Basic,
    GuildAdmin,
    Moderation,
    BotAdmin,
}

impl CommandGroup {
    /// The category bit associated with this group. Holding it grants
    /// every command of the group, independent of the command's own bits.
    pub open spec fn spec_permission(self) -> u64 {
        match self {
            CommandGroup::Basic => BASIC_GROUP,
            CommandGroup::GuildAdmin => GUILD_ADMIN_GROUP,
            CommandGroup::Moderation => MODERATION_GROUP,
            CommandGroup::BotAdmin => BOT_ADMIN,
        }
    }

    pub fn get_permission(&self) -> (r: GearBotPermissions)
        ensures
            r@ == self.spec_permission(),
            r.wf(),
    {
        let mask: u64 = match self {
            CommandGroup::Basic => BASIC_GROUP,
            CommandGroup::GuildAdmin => GUILD_ADMIN_GROUP,
            CommandGroup::Moderation => MODERATION_GROUP,
            CommandGroup::BotAdmin => BOT_ADMIN,
        };
        proof {
            assert(0x000_002u64 & 0x001_FFFu64 == 0x000_002u64) by (bit_vector);
            assert(0x000_080u64 & 0x001_FFFu64 == 0x000_080u64) by (bit_vector);
            assert(0x000_800u64 & 0x001_FFFu64 == 0x000_800u64) by (bit_vector);
            assert(0x000_001u64 & 0x001_FFFu64 == 0x000_001u64) by (bit_vector);
        }
        GearBotPermissions::from_bits_truncate(mask)
    }
}

/// The tri-state outcome of a permission evaluation. MAYBE means the
/// decision needs data not in the current snapshot; a caller must fetch
/// it and re-evaluate, never treat MAYBE as ALLOWED or DENIED.
#[allow(non_camel_case_types)]
#[derive(Clone, Copy, PartialEq, Eq, Structural, Debug)]
pub enum PermMode {
    ALLOWED,
    MAYBE,
    DENIED,
}

/// One entry in the command tree: a namespace (no handler, at least one
/// child) or an executable leaf (a handler reference). Children are
/// stored once in `children`; `sub_lookup` maps each child's canonical
/// name and every alias to the child's index, so a node reachable by
/// several keys is shared, not duplicated.
#[derive(Debug)]
pub struct CommandNode {
    pub name: String,
    /// Handler reference, present exactly on executable nodes. The
    /// asynchronous handlers themselves live outside this crate; a node
    /// carries the identifier the embedding maps to one.
    pub handler: Option<u64>,
    pub children: Vec<CommandNode>,
    /// Every name and alias of every child, each paired with the index
    /// of its child in `children`.
    pub sub_lookup: Vec<(String, usize)>,
    /// Platform permissions the bot itself must hold to act.
    pub bot_permissions: u64,
    /// Permission bits a user must hold (unless covered by the group
    /// bit or a guild override).
    pub command_permission: GearBotPermissions,
    pub group: CommandGroup,
    pub aliases: Vec<String>,
}

/// Every lookup entry of every scope points inside that scope's node
/// list. Registry construction establishes this and nothing can mutate
/// a built tree, so every reader may index through a lookup safely.
pub open spec fn node_wf(n: CommandNode) -> bool
    decreases n,
{
    &&& forall|i: int|
        0 <= i < n.sub_lookup@.len() ==> (#[trigger] n.sub_lookup@[i]).1 < n.children@.len()
    &&& forall|j: int| 0 <= j < n.children@.len() ==> node_wf(#[trigger] n.children@[j])
}

/// The root of the forest: the ordered top-level command list plus the
/// flat mapping from every top-level name and alias to its node index.
#[derive(Debug)]
pub struct RootNode {
    pub command_list: Vec<CommandNode>,
    pub all_commands: Vec<(String, usize)>,
}

pub open spec fn root_wf(r: RootNode) -> bool {
    &&& forall|i: int|
        0 <= i < r.all_commands@.len() ==> (#[trigger] r.all_commands@[i]).1
            < r.command_list@.len()
    &&& forall|j: int| 0 <= j < r.command_list@.len() ==> node_wf(#[trigger] r.command_list@[j])
}

/// The indices of the top-level commands that belong to `g`, in listing
/// order.
pub open spec fn group_indices(s: Seq<CommandNode>, g: CommandGroup) -> Seq<int>
    decreases s.len(),
{
    if s.len() == 0 {
        Seq::empty()
    } else {
        group_indices(s.drop_last(), g) + if s.last().group == g {
            seq![s.len() - 1]
        } else {
            Seq::empty()
        }
    }
}

impl RootNode {
    /// The category grouping view: indices into `command_list` of the
    /// commands in `g`, in deterministic listing order.
    pub fn by_group(&self, g: CommandGroup) -> (r: Vec<usize>)
        ensures
            r@.map_values(|u: usize| u as int) == group_indices(self.command_list@, g),
    {
        let mut out: Vec<usize> = Vec::new();
        let mut i: usize = 0;
        while i < self.command_list.len()
            invariant
                i <= self.command_list@.len(),
                out@.map_values(|u: usize| u as int) == group_indices(
                    self.command_list@.take(i as int),
                    g,
                ),
            decreases self.command_list@.len() - i,
        {
            proof {
                assert(self.command_list@.take(i + 1int).drop_last() =~= self.command_list@.take(
                    i as int,
                ));
                assert(self.command_list@.take(i + 1int).last() == self.command_list@[i as int]);
            }
            if self.command_list[i].group == g {
                out.push(i);
                proof {
                    assert(out@.map_values(|u: usize| u as int) =~= group_indices(
                        self.command_list@.take(i + 1int),
                        g,
                    ));
                }
            } else {
                proof {
                    assert(out@.map_values(|u: usize| u as int) =~= group_indices(
                        self.command_list@.take(i + 1int),
                        g,
                    ));
                }
            }
            i = i + 1;
        }
        proof {
            assert(self.command_list@.take(self.command_list@.len() as int)
                =~= self.command_list@);
        }
        out
    }
}

} // verus!
