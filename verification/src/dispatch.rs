//! Dispatch planning: one inbound message runs the single-shot pipeline
//! resolve -> evaluate -> dispatch -> report. This module computes what
//! the event loop must do; actually running a handler is asynchronous
//! work outside this crate, where any handler fault is caught at the
//! dispatch boundary and contained to that one dispatch.

use vstd::prelude::*;

use crate::evaluator::{evaluate, spec_evaluate, spec_override_for};
use crate::guild_config::PermissionOverride;
use crate::nodes::{root_wf, PermMode, RootNode};
use crate::permissions::GearBotPermissions;
use crate::resolver::{resolve, spec_resolve};

verus! {

/// What the event loop should do with one inbound message.
pub enum DispatchPlan {
    /// Invoke this handler reference, with the unconsumed argument
    /// tail, as an independent unit of work.
    Execute(u64, String),
    /// The decision depends on the live platform permissions the bot
    /// holds in the invocation channel: fetch them and plan again with
    /// the snapshot. Never act on this as if it were allowed or denied.
    NeedsBotPermissions,
    /// Resolved, but the user may not run the command: report a denial.
    Denied,
    /// Not a command, no matching command, or a bare namespace node:
    /// nothing to do.
    Miss,
}

/// The one correct plan for a message: a miss when nothing (or a bare
/// namespace node) resolves, and otherwise exactly what the tri-state
/// evaluation dictates for the matched node.
pub open spec fn plan_ok(
    r: DispatchPlan,
    root: RootNode,
    text: Seq<char>,
    prefix: Seq<char>,
    ovs: Seq<(u64, PermissionOverride)>,
    user: u64,
    bits: u64,
    bot_held: Option<u64>,
) -> bool {
    match spec_resolve(root, text, prefix) {
        None => r is Miss,
        Some(sp) => match sp.0.handler {
            None => r is Miss,
            Some(h) => match spec_evaluate(bits, spec_override_for(ovs, user), sp.0, bot_held) {
                PermMode::ALLOWED => r matches DispatchPlan::Execute(hh, a) && hh == h && a@
                    == sp.1,
                PermMode::MAYBE => r is NeedsBotPermissions,
                PermMode::DENIED => r is Denied,
            },
        },
    }
}

/// Plan the dispatch of one raw message: resolve it under the guild's
/// prefix, then evaluate the tri-state permission decision for the
/// matched node.
pub fn plan_message(
    root: &RootNode,
    raw_text: &str,
    guild_prefix: &str,
    guild_overrides: &Vec<(u64, PermissionOverride)>,
    user_id: u64,
    user_bits: GearBotPermissions,
    bot_held: Option<u64>,
) -> (r: DispatchPlan)
    requires
        root_wf(*root),
    ensures
        plan_ok(
            r,
            *root,
            raw_text@,
            guild_prefix@,
            guild_overrides@,
            user_id,
            user_bits@,
            bot_held,
        ),
{
    match resolve(root, raw_text, guild_prefix) {
        None => DispatchPlan::Miss,
        Some((node, args)) => {
            match node.handler {
                None => DispatchPlan::Miss,
                Some(h) => {
                    match evaluate(user_bits, node, guild_overrides, user_id, bot_held) {
                        PermMode::ALLOWED => DispatchPlan::Execute(h, args),
                        PermMode::MAYBE => DispatchPlan::NeedsBotPermissions,
                        PermMode::DENIED => DispatchPlan::Denied,
                    }
                },
            }
        },
    }
}

/// Plan again once the fetch of live bot permissions has come back. A
/// failed fetch (`None`) is fail-closed: the dispatch is denied (with
/// its own user-facing message, chosen by the embedding). With the
/// snapshot in hand the plan is final: never `NeedsBotPermissions`.
pub fn plan_after_fetch(
    root: &RootNode,
    raw_text: &str,
    guild_prefix: &str,
    guild_overrides: &Vec<(u64, PermissionOverride)>,
    user_id: u64,
    user_bits: GearBotPermissions,
    fetched: Option<u64>,
) -> (r: DispatchPlan)
    requires
        root_wf(*root),
    ensures
        fetched is None && spec_resolve(*root, raw_text@, guild_prefix@) is Some ==> r is Denied,
        fetched is None && spec_resolve(*root, raw_text@, guild_prefix@) is None ==> r is Miss,
        fetched matches Some(held) ==> plan_ok(
            r,
            *root,
            raw_text@,
            guild_prefix@,
            guild_overrides@,
            user_id,
            user_bits@,
            Some(held),
        ),
        !(r is NeedsBotPermissions),
{
    match fetched {
        None => {
            match resolve(root, raw_text, guild_prefix) {
                None => DispatchPlan::Miss,
                Some(_) => DispatchPlan::Denied,
            }
        },
        Some(held) => {
            let r = plan_message(
                root,
                raw_text,
                guild_prefix,
                guild_overrides,
                user_id,
                user_bits,
                Some(held),
            );
            proof {
                if spec_resolve(*root, raw_text@, guild_prefix@) is Some {
                    crate::evaluator::lemma_full_snapshot_decides(
                        user_bits@,
                        spec_override_for(guild_overrides@, user_id),
                        spec_resolve(*root, raw_text@, guild_prefix@)->Some_0.0,
                        held,
                    );
                }
            }
            r
        },
    }
}

} // verus!
