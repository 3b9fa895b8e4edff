//! Tri-state permission evaluation for a (user, node) pair.
//!
//! Baseline rule: access is allowed when the user's effective bits meet
//! the node's own permission or its category bit — holding either is
//! sufficient. Guild overrides adjust the user's bits first: an explicit
//! revocation wins over everything (deny wins), an explicit grant can
//! elevate an otherwise-denied user. MAYBE is returned exactly when the
//! decision still depends on live bot-permission data that the current
//! snapshot does not hold.

use vstd::prelude::*;

use crate::guild_config::PermissionOverride;
use crate::nodes::{CommandNode, PermMode};
use crate::permissions::GearBotPermissions;

verus! {

/// The override in force for `user`: the first entry keyed by `user`,
/// if any.
pub open spec fn spec_override_for(
    ovs: Seq<(u64, PermissionOverride)>,
    user: u64,
) -> Option<PermissionOverride>
    decreases ovs.len(),
{
    if ovs.len() == 0 {
        None
    } else if ovs.first().0 == user {
        Some(ovs.first().1)
    } else {
        spec_override_for(ovs.drop_first(), user)
    }
}

/// The user's effective bits once the guild override (if any) is
/// applied: grants are added, then revocations removed, so a bit both
/// granted and revoked stays revoked — deny wins.
pub open spec fn spec_effective_bits(bits: u64, ov: Option<PermissionOverride>) -> u64 {
    match ov {
        Option::None => bits,
        Option::Some(o) => (bits | o.granted@) & !o.revoked@,
    }
}

/// The bits any one of which satisfies the node's user-permission
/// requirement: the node's own bits or its category bit, additively.
pub open spec fn spec_required_mask(node: CommandNode) -> u64 {
    node.command_permission@ | node.group.spec_permission()
}

/// The whole decision. `bot_held` is the live snapshot of the platform
/// permissions the bot holds in the invocation channel, if the caller
/// has it; `None` while it is not yet known.
pub open spec fn spec_evaluate(
    bits: u64,
    ov: Option<PermissionOverride>,
    node: CommandNode,
    bot_held: Option<u64>,
) -> PermMode {
    let effective = spec_effective_bits(bits, ov);
    if effective & spec_required_mask(node) == 0 {
        PermMode::DENIED
    } else if node.bot_permissions == 0 {
        PermMode::ALLOWED
    } else {
        match bot_held {
            Option::None => PermMode::MAYBE,
            Option::Some(held) => if held & node.bot_permissions == node.bot_permissions {
                PermMode::ALLOWED
            } else {
                PermMode::DENIED
            },
        }
    }
}

/// Find the override in force for `user_id` in a guild's override list.
pub fn override_for(ovs: &Vec<(u64, PermissionOverride)>, user_id: u64) -> (r: Option<
    PermissionOverride,
>)
    ensures
        r == spec_override_for(ovs@, user_id),
{
    let mut i: usize = 0;
    proof {
        assert(ovs@.skip(0) =~= ovs@);
    }
    while i < ovs.len()
        invariant
            i <= ovs@.len(),
            spec_override_for(ovs@, user_id) == spec_override_for(ovs@.skip(i as int), user_id),
        decreases ovs@.len() - i,
    {
        let entry = &ovs[i];
        proof {
            assert(ovs@.skip(i as int).first() == ovs@[i as int]);
            assert(ovs@.skip(i as int).drop_first() =~= ovs@.skip(i + 1int));
        }
        if entry.0 == user_id {
            return Some(entry.1);
        }
        i = i + 1;
    }
    None
}

/// Evaluate the tri-state access decision for one (user, node) pair.
/// The guild override list is searched for the user; the result is
/// exactly `spec_evaluate` over the override in force.
pub fn evaluate(
    user_permission_bits: GearBotPermissions,
    node: &CommandNode,
    guild_overrides: &Vec<(u64, PermissionOverride)>,
    user_id: u64,
    bot_held: Option<u64>,
) -> (r: PermMode)
    ensures
        r == spec_evaluate(
            user_permission_bits@,
            spec_override_for(guild_overrides@, user_id),
            *node,
            bot_held,
        ),
{
    let ov = override_for(guild_overrides, user_id);
    let effective: u64 = match ov {
        Option::None => user_permission_bits.bits(),
        Option::Some(o) => (user_permission_bits.bits() | o.granted.bits()) & !o.revoked.bits(),
    };
    let mask: u64 = node.command_permission.bits() | node.group.get_permission().bits();
    if effective & mask == 0 {
        PermMode::DENIED
    } else if node.bot_permissions == 0 {
        PermMode::ALLOWED
    } else {
        match bot_held {
            Option::None => PermMode::MAYBE,
            Option::Some(held) => {
                if held & node.bot_permissions == node.bot_permissions {
                    PermMode::ALLOWED
                } else {
                    PermMode::DENIED
                }
            },
        }
    }
}

/// Complete a MAYBE decision once the fetch of live bot-permission data
/// has come back. A failed fetch (`None`) is fail-closed: the command is
/// treated as denied. A completed decision is never MAYBE again.
pub fn reevaluate_with_fetched(
    user_permission_bits: GearBotPermissions,
    node: &CommandNode,
    guild_overrides: &Vec<(u64, PermissionOverride)>,
    user_id: u64,
    fetched: Option<u64>,
) -> (r: PermMode)
    ensures
        fetched is None ==> r == PermMode::DENIED,
        fetched matches Some(held) ==> r == spec_evaluate(
            user_permission_bits@,
            spec_override_for(guild_overrides@, user_id),
            *node,
            Some(held),
        ),
        r != PermMode::MAYBE,
{
    match fetched {
        Option::None => PermMode::DENIED,
        Option::Some(held) => evaluate(
            user_permission_bits,
            node,
            guild_overrides,
            user_id,
            Some(held),
        ),
    }
}

/// A decision made with live bot-permission data in hand is never
/// MAYBE: the snapshot answers everything the rule consults.
pub proof fn lemma_full_snapshot_decides(
    bits: u64,
    ov: Option<PermissionOverride>,
    node: CommandNode,
    held: u64,
)
    ensures
        spec_evaluate(bits, ov, node, Some(held)) != PermMode::MAYBE,
{
}

/// The evaluation is DENIED whenever the user's bits meet neither the
/// node's own permission nor its category bit and the override in force
/// (if any) grants nothing.
pub proof fn lemma_denied_without_bits(
    bits: u64,
    ov: Option<PermissionOverride>,
    node: CommandNode,
    bot_held: Option<u64>,
)
    requires
        bits & spec_required_mask(node) == 0,
        ov matches Some(o) ==> o.granted@ & spec_required_mask(node) == 0,
    ensures
        spec_evaluate(bits, ov, node, bot_held) == PermMode::DENIED,
{
    let mask = spec_required_mask(node);
    match ov {
        Option::None => {
        },
        Option::Some(o) => {
            let rev = o.revoked@;
            let g = o.granted@;
            assert(bits & mask == 0 && g & mask == 0 ==> ((bits | g) & !rev) & mask == 0)
                by (bit_vector);
        },
    }
}

/// Holding only the category bit is enough: even absent the node's own
/// action bits, the baseline rule allows, provided no override is in
/// force and no live bot-side data is still owed.
pub proof fn lemma_category_bit_alone_allows(bits: u64, node: CommandNode, bot_held: Option<u64>)
    requires
        bits == node.group.spec_permission(),
        node.bot_permissions == 0 || (bot_held matches Some(held) && held & node.bot_permissions
            == node.bot_permissions),
    ensures
        spec_evaluate(bits, None, node, bot_held) == PermMode::ALLOWED,
{
    let g = node.group.spec_permission();
    let cp = node.command_permission@;
    assert(g == 0x000_001u64 || g == 0x000_002u64 || g == 0x000_080u64 || g == 0x000_800u64 ==> g
        & (cp | g) != 0) by (bit_vector);
}

/// Deny wins: an override that revokes the category bit and grants
/// nothing denies a user whose whole claim on the node was that
/// category-level allow, whatever other bits the user holds.
pub proof fn lemma_override_deny_wins(
    bits: u64,
    o: PermissionOverride,
    node: CommandNode,
    bot_held: Option<u64>,
)
    requires
        bits & node.command_permission@ == 0,
        node.group.spec_permission() & !o.revoked@ == 0,
        o.granted@ & spec_required_mask(node) == 0,
    ensures
        spec_evaluate(bits, Some(o), node, bot_held) == PermMode::DENIED,
{
    let gb = node.group.spec_permission();
    let cp = node.command_permission@;
    let rev = o.revoked@;
    let g = o.granted@;
    assert(bits & cp == 0 && gb & !rev == 0 && g & (cp | gb) == 0 ==> ((bits | g) & !rev) & (cp
        | gb) == 0) by (bit_vector);
}

} // verus!
