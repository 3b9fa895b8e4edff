//! Tokenizer/resolver: maps raw message text to the deepest matching
//! command node plus the unconsumed argument tail.
//!
//! The configured prefix is stripped by case-sensitive exact match; a
//! missing prefix means the message is not a command at all, a normal
//! outcome. Tokens after the prefix are matched case-insensitively
//! against each scope's name/alias lookup, descending while the next
//! token matches a child and stopping at the deepest match.

use vstd::prelude::*;

use crate::nodes::{lemma_spec_find_entry, node_wf, root_wf, spec_find, CommandNode, RootNode};
use crate::text::{spec_starts_with, spec_token_end, starts_with, str_eq_ci, token_end};

verus! {

/// Find the first case-insensitive match of `token` in a scope's
/// lookup table.
pub fn find_key(pairs: &Vec<(String, usize)>, token: &str) -> (r: Option<usize>)
    ensures
        r == spec_find(pairs@, token@),
{
    let mut i: usize = 0;
    proof {
        assert(pairs@.skip(0) =~= pairs@);
    }
    while i < pairs.len()
        invariant
            i <= pairs@.len(),
            spec_find(pairs@, token@) == spec_find(pairs@.skip(i as int), token@),
        decreases pairs@.len() - i,
    {
        proof {
            assert(pairs@.skip(i as int).first() == pairs@[i as int]);
            assert(pairs@.skip(i as int).drop_first() =~= pairs@.skip(i + 1int));
        }
        if str_eq_ci(pairs[i].0.as_str(), token) {
            return Some(pairs[i].1);
        }
        i = i + 1;
    }
    None
}

/// Resolution within one scope: match the token at `pos` against the
/// scope's lookup; on a hit, descend into the matched node's children
/// with the following token, and stop at the deepest node whose scope
/// no longer matches. The second component is where the unconsumed
/// argument tail begins.
pub open spec fn spec_resolve_rec(
    nodes: Seq<CommandNode>,
    pairs: Seq<(String, usize)>,
    text: Seq<char>,
    pos: int,
) -> Option<(CommandNode, int)>
    decreases nodes,
{
    let end = spec_token_end(text, pos);
    let rest = if end < text.len() {
        end + 1
    } else {
        text.len() as int
    };
    match spec_find(pairs, text.subrange(pos, end)) {
        None => None,
        Some(idx) => if idx < nodes.len() {
            match spec_resolve_rec(nodes[idx as int].children@, nodes[idx as int].sub_lookup@, text, rest) {
                Some(deeper) => Some(deeper),
                None => Some((nodes[idx as int], rest)),
            }
        } else {
            None
        },
    }
}

fn resolve_rec<'a>(
    nodes: &'a Vec<CommandNode>,
    pairs: &Vec<(String, usize)>,
    text: &str,
    pos: usize,
) -> (r: Option<(&'a CommandNode, usize)>)
    requires
        forall|i: int| 0 <= i < pairs@.len() ==> (#[trigger] pairs@[i]).1 < nodes@.len(),
        forall|j: int| 0 <= j < nodes@.len() ==> node_wf(#[trigger] nodes@[j]),
        pos <= text@.len(),
    ensures
        r is Some <==> spec_resolve_rec(nodes@, pairs@, text@, pos as int) is Some,
        r matches Some(p) ==> spec_resolve_rec(nodes@, pairs@, text@, pos as int) matches Some(sp)
            && *p.0 == sp.0 && p.1 as int == sp.1 && p.1 <= text@.len(),
    decreases nodes@,
{
    let end = token_end(text, pos);
    let token = text.substring_char(pos, end);
    let len = text.unicode_len();
    let rest: usize = if end < len {
        end + 1
    } else {
        len
    };
    match find_key(pairs, token) {
        None => None,
        Some(idx) => {
            proof {
                lemma_spec_find_entry(pairs@, token@);
            }
            let node = &nodes[idx];
            proof {
                assert(node_wf(nodes@[idx as int]));
            }
            match resolve_rec(&node.children, &node.sub_lookup, text, rest) {
                Some(deeper) => Some(deeper),
                None => Some((node, rest)),
            }
        },
    }
}

/// Whole-message resolution: strip the guild's prefix (case-sensitive
/// exact match — absent prefix means "not a command"), then descend
/// through the registry by case-insensitive token matching. The result
/// pairs the deepest matched node with the unconsumed tail of the text.
pub open spec fn spec_resolve(root: RootNode, text: Seq<char>, prefix: Seq<char>) -> Option<
    (CommandNode, Seq<char>),
> {
    if !spec_starts_with(text, prefix) {
        None
    } else {
        match spec_resolve_rec(
            root.command_list@,
            root.all_commands@,
            text,
            prefix.len() as int,
        ) {
            None => None,
            Some(p) => Some((p.0, text.skip(p.1))),
        }
    }
}

/// Resolve raw message text against the registry under the guild's
/// prefix. `None` — no prefix, or no command matched the first token —
/// is a normal outcome, not an error.
pub fn resolve<'a>(root: &'a RootNode, raw_text: &str, guild_prefix: &str) -> (r: Option<
    (&'a CommandNode, String),
>)
    requires
        root_wf(*root),
    ensures
        r is Some <==> spec_resolve(*root, raw_text@, guild_prefix@) is Some,
        r matches Some(p) ==> spec_resolve(*root, raw_text@, guild_prefix@) matches Some(sp)
            && *p.0 == sp.0 && p.1@ == sp.1,
{
    if !starts_with(raw_text, guild_prefix) {
        return None;
    }
    let plen = guild_prefix.unicode_len();
    match resolve_rec(&root.command_list, &root.all_commands, raw_text, plen) {
        None => None,
        Some((node, argpos)) => {
            let len = raw_text.unicode_len();
            let args = text_tail(raw_text, argpos, len);
            Some((node, args))
        },
    }
}

/// The unconsumed tail of the text from `from` on, as an owned string.
fn text_tail(text: &str, from: usize, len: usize) -> (r: String)
    requires
        from <= len,
        len == text@.len(),
    ensures
        r@ == text@.skip(from as int),
{
    let tail = text.substring_char(from, len);
    proof {
        assert(text@.subrange(from as int, len as int) =~= text@.skip(from as int));
    }
    tail.to_owned()
}

} // verus!
