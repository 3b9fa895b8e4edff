//! Registry construction: the immutable command forest is built exactly
//! once, bottom-up, from declarative descriptors. Construction fails
//! with a configuration error — aborting startup — if two descriptors in
//! one sibling scope share a name or alias, or if a node without a
//! handler ends up with no children. The result is frozen: no API
//! mutates it afterwards.

use vstd::prelude::*;

use crate::nodes::{node_wf, root_wf, spec_find, CommandGroup, CommandNode, RootNode};
use crate::permissions::GearBotPermissions;
use crate::text::ci_eq;

verus! {

/// A declarative description of one command: what the registry is built
/// from.
pub struct CommandDescriptor {
    pub name: String,
    pub aliases: Vec<String>,
    pub group: CommandGroup,
    /// Platform permissions the bot itself must hold to act.
    pub bot_permissions: u64,
    /// Permission bits a user must hold for this command.
    pub command_permission: GearBotPermissions,
    /// Handler reference; absent on pure namespace nodes.
    pub handler: Option<u64>,
    pub children: Vec<CommandDescriptor>,
}

/// A build-time configuration failure. Fatal: startup is aborted.
#[derive(Clone, Copy, PartialEq, Eq, Structural, Debug)]
pub enum ConfigError {
    /// Two descriptors in one sibling scope share a name or alias
    /// (compared case-insensitively, as resolution matches them).
    DuplicateKey,
    /// A node without a handler has no children and would dead-end.
    ChildlessNamespace,
}

/// The keys under which one descriptor is reachable: its canonical name,
/// then each declared alias.
pub open spec fn keys_of(d: CommandDescriptor) -> Seq<Seq<char>> {
    Seq::new(
        d.aliases@.len() + 1,
        |m: int|
            if m == 0 {
                d.name@
            } else {
                d.aliases@[m - 1]@
            },
    )
}

/// The flat (key, owner-index) pairs of one sibling scope in declaration
/// order: for each descriptor, its canonical name, then each alias, all
/// owned by that descriptor's index.
pub open spec fn scope_pairs(ds: Seq<CommandDescriptor>) -> Seq<(Seq<char>, int)>
    decreases ds.len(),
{
    if ds.len() == 0 {
        Seq::empty()
    } else {
        scope_pairs(ds.drop_last()) + keys_of(ds.last()).map_values(
            |key: Seq<char>| (key, (ds.len() - 1) as int),
        )
    }
}

/// Two entries of a scope's key table collide case-insensitively.
pub open spec fn pairs_have_dup(ps: Seq<(Seq<char>, int)>) -> bool {
    exists|a: int, b: int|
        0 <= a < b < ps.len() && ci_eq((#[trigger] ps[a]).0, (#[trigger] ps[b]).0)
}

/// Some sibling scope strictly below `d` (its children, grandchildren,
/// ...) has colliding keys.
pub open spec fn subtree_has_dup(d: CommandDescriptor) -> bool
    decreases d,
{
    ||| pairs_have_dup(scope_pairs(d.children@))
    ||| exists|j: int| 0 <= j < d.children@.len() && subtree_has_dup(#[trigger] d.children@[j])
}

/// Some sibling scope of the forest has colliding keys.
pub open spec fn forest_has_dup(ds: Seq<CommandDescriptor>) -> bool {
    ||| pairs_have_dup(scope_pairs(ds))
    ||| exists|j: int| 0 <= j < ds.len() && subtree_has_dup(#[trigger] ds[j])
}

/// `d` or a descendant is a namespace node (no handler) with no
/// children: it could never lead anywhere.
pub open spec fn subtree_childless(d: CommandDescriptor) -> bool
    decreases d,
{
    ||| (d.handler is None && d.children@.len() == 0)
    ||| exists|j: int| 0 <= j < d.children@.len() && subtree_childless(#[trigger] d.children@[j])
}

pub open spec fn forest_childless(ds: Seq<CommandDescriptor>) -> bool {
    exists|j: int| 0 <= j < ds.len() && subtree_childless(#[trigger] ds[j])
}

/// Exactly the descriptor forests the builder accepts: no key collision
/// in any sibling scope, no dead-ending namespace node.
pub open spec fn descriptors_valid(ds: Seq<CommandDescriptor>) -> bool {
    !forest_has_dup(ds) && !forest_childless(ds)
}

/// An executable lookup table realizes a scope's expected (key, owner)
/// pairs, entry for entry.
pub open spec fn lookup_matches(
    pairs: Seq<(String, usize)>,
    expected: Seq<(Seq<char>, int)>,
) -> bool {
    &&& pairs.len() == expected.len()
    &&& forall|i: int|
        0 <= i < pairs.len() ==> (#[trigger] pairs[i]).0@ == expected[i].0 && pairs[i].1 as int
            == expected[i].1
}

/// A built node realizes a descriptor: same data, children realize the
/// sub-descriptors in order, and the sub-lookup is exactly the children
/// scope's key table.
pub open spec fn represents(n: CommandNode, d: CommandDescriptor) -> bool
    decreases d,
{
    &&& n.name@ == d.name@
    &&& n.handler == d.handler
    &&& n.bot_permissions == d.bot_permissions
    &&& n.command_permission == d.command_permission
    &&& n.group == d.group
    &&& n.aliases@.len() == d.aliases@.len()
    &&& forall|m: int| 0 <= m < d.aliases@.len() ==> (#[trigger] n.aliases@[m])@ == d.aliases@[m]@
    &&& n.children@.len() == d.children@.len()
    &&& forall|j: int|
        0 <= j < d.children@.len() ==> represents(
            #[trigger] n.children@[j],
            #[trigger] d.children@[j],
        )
    &&& lookup_matches(n.sub_lookup@, scope_pairs(d.children@))
}

/// The whole built registry realizes the descriptor forest.
pub open spec fn root_represents(r: RootNode, ds: Seq<CommandDescriptor>) -> bool {
    &&& r.command_list@.len() == ds.len()
    &&& forall|j: int|
        0 <= j < ds.len() ==> represents(#[trigger] r.command_list@[j], #[trigger] ds[j])
    &&& lookup_matches(r.all_commands@, scope_pairs(ds))
}

/// Appending descriptor `i`'s keys extends the scope table.
pub proof fn lemma_scope_pairs_push(ds: Seq<CommandDescriptor>, i: int)
    requires
        0 <= i < ds.len(),
    ensures
        scope_pairs(ds.take(i + 1)) =~= scope_pairs(ds.take(i)) + keys_of(ds[i]).map_values(
            |key: Seq<char>| (key, i),
        ),
{
    assert(ds.take(i + 1).drop_last() =~= ds.take(i));
    assert(ds.take(i + 1).last() == ds[i]);
    assert(keys_of(ds[i]).map_values(|key: Seq<char>| (key, (ds.take(i + 1).len() - 1) as int))
        =~= keys_of(ds[i]).map_values(|key: Seq<char>| (key, i)));
}

/// Every owner index stored in a scope table points at a descriptor of
/// that scope.
pub proof fn lemma_scope_pairs_owners(ds: Seq<CommandDescriptor>)
    ensures
        forall|t: int|
            0 <= t < scope_pairs(ds).len() ==> 0 <= (#[trigger] scope_pairs(ds)[t]).1 < ds.len(),
    decreases ds.len(),
{
    if ds.len() > 0 {
        lemma_scope_pairs_owners(ds.drop_last());
        assert forall|t: int| 0 <= t < scope_pairs(ds).len() implies 0 <= (#[trigger] scope_pairs(
            ds,
        )[t]).1 < ds.len() by {
            let prefix = scope_pairs(ds.drop_last());
            if t < prefix.len() {
                assert(scope_pairs(ds)[t] == prefix[t]);
                assert(0 <= prefix[t].1 < ds.drop_last().len());
            } else {
                assert(scope_pairs(ds)[t] == keys_of(ds.last()).map_values(
                    |key: Seq<char>| (key, (ds.len() - 1) as int),
                )[t - prefix.len()]);
            }
        }
    }
}

/// First case-insensitive match in a scope's abstract key table.
pub open spec fn lookup_abs(ps: Seq<(Seq<char>, int)>, key: Seq<char>) -> Option<int>
    decreases ps.len(),
{
    if ps.len() == 0 {
        None
    } else if ci_eq(ps.first().0, key) {
        Some(ps.first().1)
    } else {
        lookup_abs(ps.drop_first(), key)
    }
}

/// Looking up in a concatenation: the left block is searched first.
proof fn lemma_lookup_abs_append(ps: Seq<(Seq<char>, int)>, qs: Seq<(Seq<char>, int)>, key: Seq<char>)
    ensures
        lookup_abs(ps + qs, key) == if exists|t: int|
            0 <= t < ps.len() && ci_eq((#[trigger] ps[t]).0, key) {
            lookup_abs(ps, key)
        } else {
            lookup_abs(qs, key)
        },
    decreases ps.len(),
{
    if ps.len() == 0 {
        assert(ps + qs =~= qs);
    } else {
        assert((ps + qs).first() == ps.first());
        assert((ps + qs).drop_first() =~= ps.drop_first() + qs);
        if ci_eq(ps.first().0, key) {
            assert(ps[0].0 == ps.first().0);
        } else {
            lemma_lookup_abs_append(ps.drop_first(), qs, key);
            if exists|t: int| 0 <= t < ps.len() && ci_eq((#[trigger] ps[t]).0, key) {
                let t = choose|t: int| 0 <= t < ps.len() && ci_eq((#[trigger] ps[t]).0, key);
                assert(t != 0);
                assert(ps.drop_first()[t - 1] == ps[t]);
            }
            if exists|t: int|
                0 <= t < ps.drop_first().len() && ci_eq((#[trigger] ps.drop_first()[t]).0, key) {
                let t = choose|t: int|
                    0 <= t < ps.drop_first().len() && ci_eq(
                        (#[trigger] ps.drop_first()[t]).0,
                        key,
                    );
                assert(ps[t + 1] == ps.drop_first()[t]);
            }
        }
    }
}

/// A lookup succeeds exactly when some entry matches.
proof fn lemma_lookup_abs_found_iff(ps: Seq<(Seq<char>, int)>, key: Seq<char>)
    ensures
        lookup_abs(ps, key) is Some <==> exists|t: int|
            0 <= t < ps.len() && ci_eq((#[trigger] ps[t]).0, key),
    decreases ps.len(),
{
    if ps.len() > 0 {
        if ci_eq(ps.first().0, key) {
            assert(ps[0].0 == ps.first().0);
        } else {
            lemma_lookup_abs_found_iff(ps.drop_first(), key);
            if exists|t: int| 0 <= t < ps.len() && ci_eq((#[trigger] ps[t]).0, key) {
                let t = choose|t: int| 0 <= t < ps.len() && ci_eq((#[trigger] ps[t]).0, key);
                assert(t != 0);
                assert(ps.drop_first()[t - 1] == ps[t]);
            }
            if exists|t: int|
                0 <= t < ps.drop_first().len() && ci_eq((#[trigger] ps.drop_first()[t]).0, key) {
                let t = choose|t: int|
                    0 <= t < ps.drop_first().len() && ci_eq(
                        (#[trigger] ps.drop_first()[t]).0,
                        key,
                    );
                assert(ps[t + 1] == ps.drop_first()[t]);
            }
        }
    }
}

/// In a block whose entries all carry one owner, a successful lookup
/// yields that owner.
proof fn lemma_lookup_abs_block(ps: Seq<(Seq<char>, int)>, key: Seq<char>, b: int)
    requires
        forall|t: int| 0 <= t < ps.len() ==> (#[trigger] ps[t]).1 == b,
        exists|t: int| 0 <= t < ps.len() && ci_eq((#[trigger] ps[t]).0, key),
    ensures
        lookup_abs(ps, key) == Some(b),
    decreases ps.len(),
{
    if ci_eq(ps.first().0, key) {
        assert(ps[0].1 == b);
    } else {
        let t = choose|t: int| 0 <= t < ps.len() && ci_eq((#[trigger] ps[t]).0, key);
        assert(t != 0);
        assert(ps.drop_first()[t - 1] == ps[t]);
        assert forall|u: int| 0 <= u < ps.drop_first().len() implies (#[trigger] ps.drop_first()[u]).1
            == b by {
            assert(ps.drop_first()[u] == ps[u + 1]);
        }
        lemma_lookup_abs_block(ps.drop_first(), key, b);
    }
}

/// An executable table realizing a scope's key table finds the same
/// owner as the abstract lookup.
proof fn lemma_find_bridge(pairs: Seq<(String, usize)>, ps: Seq<(Seq<char>, int)>, key: Seq<char>)
    requires
        lookup_matches(pairs, ps),
    ensures
        lookup_abs(ps, key) is None ==> spec_find(pairs, key) is None,
        lookup_abs(ps, key) matches Some(o) ==> spec_find(pairs, key) matches Some(u) && u as int
            == o,
    decreases pairs.len(),
{
    if pairs.len() > 0 {
        assert(pairs[0].0@ == ps[0].0 && pairs[0].1 as int == ps[0].1);
        assert(pairs.first() == pairs[0] && ps.first() == ps[0]);
        if !ci_eq(pairs.first().0@, key) {
            assert forall|i: int| 0 <= i < pairs.drop_first().len() implies (#[trigger] pairs
                .drop_first()[i]).0@ == ps.drop_first()[i].0 && pairs.drop_first()[i].1 as int
                == ps.drop_first()[i].1 by {
                assert(pairs.drop_first()[i] == pairs[i + 1]);
                assert(ps.drop_first()[i] == ps[i + 1]);
            }
            lemma_find_bridge(pairs.drop_first(), ps.drop_first(), key);
        }
    }
}

/// In a collision-free scope, any key of descriptor `j` — canonical
/// name or alias — looks up to owner `j` in the abstract key table.
proof fn lemma_scope_lookup_owner(ds: Seq<CommandDescriptor>, j: int, k: int)
    requires
        !pairs_have_dup(scope_pairs(ds)),
        0 <= j < ds.len(),
        0 <= k < keys_of(ds[j]).len(),
    ensures
        lookup_abs(scope_pairs(ds), keys_of(ds[j])[k]) == Some(j),
    decreases ds.len(),
{
    let key = keys_of(ds[j])[k];
    let prev = scope_pairs(ds.drop_last());
    let blk = keys_of(ds.last()).map_values(|key: Seq<char>| (key, (ds.len() - 1) as int));
    assert(scope_pairs(ds) == prev + blk);
    if j == ds.len() - 1 {
        assert(ds.last() == ds[j]);
        assert(blk[k].0 == key && blk[k].1 == j);
        assert forall|t: int| 0 <= t < prev.len() implies !ci_eq((#[trigger] prev[t]).0, key) by {
            if ci_eq(prev[t].0, key) {
                assert((prev + blk)[t] == prev[t]);
                assert((prev + blk)[prev.len() + k] == blk[k]);
                assert(pairs_have_dup(scope_pairs(ds)));
            }
        }
        lemma_lookup_abs_append(prev, blk, key);
        assert(ci_eq(blk[k].0, key));
        lemma_lookup_abs_block(blk, key, j);
    } else {
        if pairs_have_dup(prev) {
            let (a, b) = choose|a: int, b: int|
                0 <= a < b < prev.len() && ci_eq((#[trigger] prev[a]).0, (#[trigger] prev[b]).0);
            assert((prev + blk)[a] == prev[a]);
            assert((prev + blk)[b] == prev[b]);
            assert(pairs_have_dup(scope_pairs(ds)));
        }
        assert(ds.drop_last()[j] == ds[j]);
        lemma_scope_lookup_owner(ds.drop_last(), j, k);
        lemma_lookup_abs_found_iff(prev, key);
        lemma_lookup_abs_append(prev, blk, key);
    }
}

/// For every registered command, the canonical name and every declared
/// alias resolve to the same node: in a collision-free sibling scope,
/// looking up any key of descriptor `j` — its canonical name or any of
/// its aliases — in the realized lookup table yields exactly index `j`,
/// the one shared node.
pub proof fn lemma_keys_resolve_to_same_node(
    pairs: Seq<(String, usize)>,
    ds: Seq<CommandDescriptor>,
    j: int,
    k: int,
)
    requires
        lookup_matches(pairs, scope_pairs(ds)),
        !pairs_have_dup(scope_pairs(ds)),
        0 <= j < ds.len(),
        0 <= k < keys_of(ds[j]).len(),
    ensures
        spec_find(pairs, keys_of(ds[j])[k]) matches Some(u) && u as int == j,
{
    lemma_scope_lookup_owner(ds, j, k);
    lemma_find_bridge(pairs, scope_pairs(ds), keys_of(ds[j])[k]);
}

/// The same law over a built registry: in a registry built from a
/// valid descriptor forest, every key of top-level descriptor `j` —
/// canonical name or alias — finds node `j` in the flat lookup, so all
/// of them reach one shared node. Child scopes satisfy the same through
/// `represents` and `lemma_keys_resolve_to_same_node`.
pub proof fn lemma_registry_keys_share_node(
    root: RootNode,
    ds: Seq<CommandDescriptor>,
    j: int,
    k: int,
)
    requires
        root_represents(root, ds),
        descriptors_valid(ds),
        0 <= j < ds.len(),
        0 <= k < keys_of(ds[j]).len(),
    ensures
        spec_find(root.all_commands@, keys_of(ds[j])[k]) matches Some(u) && u as int == j,
{
    lemma_keys_resolve_to_same_node(root.all_commands@, ds, j, k);
}

/// Build the executable lookup table of one sibling scope: every
/// descriptor's canonical name and aliases, each paired with the
/// descriptor's index.
fn scope_keys_vec(ds: &Vec<CommandDescriptor>) -> (r: Vec<(String, usize)>)
    ensures
        lookup_matches(r@, scope_pairs(ds@)),
{
    let mut r: Vec<(String, usize)> = Vec::new();
    let mut i: usize = 0;
    proof {
        assert(ds@.take(0) =~= Seq::<CommandDescriptor>::empty());
    }
    while i < ds.len()
        invariant
            i <= ds@.len(),
            lookup_matches(r@, scope_pairs(ds@.take(i as int))),
        decreases ds@.len() - i,
    {
        let ghost prev = scope_pairs(ds@.take(i as int));
        let ghost keys = keys_of(ds@[i as int]);
        r.push((ds[i].name.clone(), i));
        let mut k: usize = 0;
        while k < ds[i].aliases.len()
            invariant
                i < ds@.len(),
                k <= ds@[i as int].aliases@.len(),
                prev == scope_pairs(ds@.take(i as int)),
                keys == keys_of(ds@[i as int]),
                forall|t: int|
                    0 <= t < prev.len() ==> (#[trigger] r@[t]).0@ == prev[t].0 && r@[t].1 as int
                        == prev[t].1,
                r@.len() == prev.len() + 1 + k,
                forall|m: int|
                    0 <= m < 1 + k ==> (#[trigger] r@[prev.len() + m]).0@ == keys[m] && r@[prev.len()
                        + m].1 == i,
            decreases ds@[i as int].aliases@.len() - k,
        {
            r.push((ds[i].aliases[k].clone(), i));
            k = k + 1;
        }
        proof {
            lemma_scope_pairs_push(ds@, i as int);
            let next = scope_pairs(ds@.take(i + 1));
            let block = keys.map_values(|key: Seq<char>| (key, i as int));
            assert(next =~= prev + block);
            assert forall|t: int| 0 <= t < r@.len() implies (#[trigger] r@[t]).0@ == next[t].0
                && r@[t].1 as int == next[t].1 by {
                if t < prev.len() {
                    assert(next[t] == prev[t]);
                } else {
                    assert(next[t] == block[t - prev.len()]);
                    assert(r@[prev.len() + (t - prev.len())].0@ == keys[t - prev.len()]);
                }
            }
            assert(lookup_matches(r@, next));
        }
        i = i + 1;
    }
    proof {
        assert(ds@.take(ds@.len() as int) =~= ds@);
    }
    r
}

/// Does any pair of entries of an executable key table collide
/// case-insensitively?
pub open spec fn vec_pairs_dup(ps: Seq<(String, usize)>) -> bool {
    exists|a: int, b: int|
        0 <= a < b < ps.len() && ci_eq((#[trigger] ps[a]).0@, (#[trigger] ps[b]).0@)
}

/// Collisions in an executable table are exactly collisions in the
/// scope table it realizes.
pub proof fn lemma_dup_bridge(pairs: Seq<(String, usize)>, ps: Seq<(Seq<char>, int)>)
    requires
        lookup_matches(pairs, ps),
    ensures
        vec_pairs_dup(pairs) <==> pairs_have_dup(ps),
{
    if vec_pairs_dup(pairs) {
        let (a, b) = choose|a: int, b: int|
            0 <= a < b < pairs.len() && ci_eq((#[trigger] pairs[a]).0@, (#[trigger] pairs[b]).0@);
        assert(ci_eq(ps[a].0, ps[b].0));
    }
    if pairs_have_dup(ps) {
        let (a, b) = choose|a: int, b: int|
            0 <= a < b < ps.len() && ci_eq((#[trigger] ps[a]).0, (#[trigger] ps[b]).0);
        assert(ci_eq(pairs[a].0@, pairs[b].0@));
    }
}

/// Scan an executable key table for a case-insensitive collision.
fn has_dup_pairs(pairs: &Vec<(String, usize)>) -> (r: bool)
    ensures
        r == vec_pairs_dup(pairs@),
{
    let n = pairs.len();
    let mut a: usize = 0;
    while a < n
        invariant
            n == pairs@.len(),
            a <= n,
            forall|x: int, y: int|
                0 <= x < a && x < y < n ==> !ci_eq((#[trigger] pairs@[x]).0@, (#[trigger] pairs@[y]).0@),
        decreases n - a,
    {
        let mut b: usize = a + 1;
        while b < n
            invariant
                n == pairs@.len(),
                a < n,
                a < b <= n,
                forall|y: int| a < y < b ==> !ci_eq(pairs@[a as int].0@, (#[trigger] pairs@[y]).0@),
            decreases n - b,
        {
            if crate::text::str_eq_ci(pairs[a].0.as_str(), pairs[b].0.as_str()) {
                return true;
            }
            b = b + 1;
        }
        a = a + 1;
    }
    false
}

/// Does some sibling scope at or below this descriptor collide?
fn subtree_dup_exec(d: &CommandDescriptor) -> (r: bool)
    ensures
        r == subtree_has_dup(*d),
    decreases *d,
{
    let pairs = scope_keys_vec(&d.children);
    proof {
        lemma_dup_bridge(pairs@, scope_pairs(d.children@));
    }
    if has_dup_pairs(&pairs) {
        return true;
    }
    let mut j: usize = 0;
    while j < d.children.len()
        invariant
            j <= d.children@.len(),
            !pairs_have_dup(scope_pairs(d.children@)),
            forall|t: int| 0 <= t < j ==> !subtree_has_dup(#[trigger] d.children@[t]),
        decreases d.children@.len() - j,
    {
        if subtree_dup_exec(&d.children[j]) {
            return true;
        }
        j = j + 1;
    }
    false
}

/// Does some sibling scope of the forest collide?
fn forest_dup_exec(ds: &Vec<CommandDescriptor>) -> (r: bool)
    ensures
        r == forest_has_dup(ds@),
{
    let pairs = scope_keys_vec(ds);
    proof {
        lemma_dup_bridge(pairs@, scope_pairs(ds@));
    }
    if has_dup_pairs(&pairs) {
        return true;
    }
    let mut j: usize = 0;
    while j < ds.len()
        invariant
            j <= ds@.len(),
            !pairs_have_dup(scope_pairs(ds@)),
            forall|t: int| 0 <= t < j ==> !subtree_has_dup(#[trigger] ds@[t]),
        decreases ds@.len() - j,
    {
        if subtree_dup_exec(&ds[j]) {
            return true;
        }
        j = j + 1;
    }
    false
}

/// Is this descriptor, or a descendant, a dead-ending namespace node?
fn subtree_childless_exec(d: &CommandDescriptor) -> (r: bool)
    ensures
        r == subtree_childless(*d),
    decreases *d,
{
    if d.handler.is_none() && d.children.len() == 0 {
        return true;
    }
    let mut j: usize = 0;
    while j < d.children.len()
        invariant
            j <= d.children@.len(),
            !(d.handler is None && d.children@.len() == 0),
            forall|t: int| 0 <= t < j ==> !subtree_childless(#[trigger] d.children@[t]),
        decreases d.children@.len() - j,
    {
        if subtree_childless_exec(&d.children[j]) {
            return true;
        }
        j = j + 1;
    }
    false
}

fn forest_childless_exec(ds: &Vec<CommandDescriptor>) -> (r: bool)
    ensures
        r == forest_childless(ds@),
{
    let mut j: usize = 0;
    while j < ds.len()
        invariant
            j <= ds@.len(),
            forall|t: int| 0 <= t < j ==> !subtree_childless(#[trigger] ds@[t]),
        decreases ds@.len() - j,
    {
        if subtree_childless_exec(&ds[j]) {
            return true;
        }
        j = j + 1;
    }
    false
}

/// Clone a list of alias strings.
fn clone_strings(v: &Vec<String>) -> (r: Vec<String>)
    ensures
        r@.len() == v@.len(),
        forall|m: int| 0 <= m < v@.len() ==> (#[trigger] r@[m])@ == v@[m]@,
{
    let mut r: Vec<String> = Vec::new();
    let mut m: usize = 0;
    while m < v.len()
        invariant
            m <= v@.len(),
            r@.len() == m,
            forall|t: int| 0 <= t < m ==> (#[trigger] r@[t])@ == v@[t]@,
        decreases v@.len() - m,
    {
        r.push(v[m].clone());
        m = m + 1;
    }
    r
}

/// Build one node, bottom-up: children are built first, then the
/// sub-lookup that addresses each of them by canonical name and by
/// every alias.
fn build_node(d: &CommandDescriptor) -> (n: CommandNode)
    ensures
        represents(n, *d),
        node_wf(n),
    decreases *d,
{
    let mut children: Vec<CommandNode> = Vec::new();
    let mut j: usize = 0;
    while j < d.children.len()
        invariant
            j <= d.children@.len(),
            children@.len() == j,
            forall|t: int|
                0 <= t < j ==> represents(#[trigger] children@[t], #[trigger] d.children@[t])
                    && node_wf(children@[t]),
        decreases d.children@.len() - j,
    {
        let child = build_node(&d.children[j]);
        children.push(child);
        j = j + 1;
    }
    let sub_lookup = scope_keys_vec(&d.children);
    let n = CommandNode {
        name: d.name.clone(),
        handler: d.handler,
        children,
        sub_lookup,
        bot_permissions: d.bot_permissions,
        command_permission: d.command_permission,
        group: d.group,
        aliases: clone_strings(&d.aliases),
    };
    proof {
        lemma_scope_pairs_owners(d.children@);
        assert forall|t: int| 0 <= t < n.sub_lookup@.len() implies (#[trigger] n.sub_lookup@[t]).1
            < n.children@.len() by {
            assert(n.sub_lookup@[t].1 as int == scope_pairs(d.children@)[t].1);
        }
        assert forall|t: int| 0 <= t < n.children@.len() implies node_wf(
            #[trigger] n.children@[t],
        ) by {
            assert(represents(children@[t], d.children@[t]));
            assert(n.children@[t] == children@[t]);
        }
        assert(node_wf(n));
        assert(represents(n, *d));
    }
    n
}

/// Construct the immutable command forest from declarative descriptors.
///
/// Returns the frozen registry, or a configuration error — duplicate
/// key first, then dead-ending namespace — exactly when the descriptor
/// forest is invalid.
pub fn build(descriptors: Vec<CommandDescriptor>) -> (r: Result<RootNode, ConfigError>)
    ensures
        r is Ok <==> descriptors_valid(descriptors@),
        (r matches Err(e) && e == ConfigError::DuplicateKey) <==> forest_has_dup(descriptors@),
        (r matches Err(e) && e == ConfigError::ChildlessNamespace) <==> (!forest_has_dup(
            descriptors@,
        ) && forest_childless(descriptors@)),
        r matches Ok(root) ==> root_represents(root, descriptors@) && root_wf(root),
{
    if forest_dup_exec(&descriptors) {
        return Err(ConfigError::DuplicateKey);
    }
    if forest_childless_exec(&descriptors) {
        return Err(ConfigError::ChildlessNamespace);
    }
    let mut command_list: Vec<CommandNode> = Vec::new();
    let mut j: usize = 0;
    while j < descriptors.len()
        invariant
            j <= descriptors@.len(),
            command_list@.len() == j,
            forall|t: int|
                0 <= t < j ==> represents(#[trigger] command_list@[t], #[trigger] descriptors@[t])
                    && node_wf(command_list@[t]),
        decreases descriptors@.len() - j,
    {
        let node = build_node(&descriptors[j]);
        command_list.push(node);
        j = j + 1;
    }
    let all_commands = scope_keys_vec(&descriptors);
    let root = RootNode { command_list, all_commands };
    proof {
        lemma_scope_pairs_owners(descriptors@);
        assert forall|t: int| 0 <= t < root.all_commands@.len() implies (#[trigger] root
            .all_commands@[t]).1 < root.command_list@.len() by {
            assert(root.all_commands@[t].1 as int == scope_pairs(descriptors@)[t].1);
        }
        assert forall|t: int| 0 <= t < root.command_list@.len() implies node_wf(
            #[trigger] root.command_list@[t],
        ) by {
            assert(represents(command_list@[t], descriptors@[t]));
            assert(root.command_list@[t] == command_list@[t]);
        }
        assert(root_wf(root));
        assert(root_represents(root, descriptors@));
    }
    Ok(root)
}

} // verus!
