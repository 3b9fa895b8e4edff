//! The permission bitmask: a tagged set of named bit positions inside a
//! fixed-width 64-bit field, with explicit union / intersection / truncate
//! operations. Category (group) bits and atomic action bits occupy
//! disjoint positions.

use vstd::prelude::*;

verus! {

pub const BOT_ADMIN: u64 = 0x000_001;
pub const BASIC_GROUP: u64 = 0x000_002;
pub const ABOUT_COMMAND: u64 = 0x000_004;
pub const COINFLIP_COMMAND: u64 = 0x000_008;
pub const PING_COMMAND: u64 = 0x000_010;
pub const QUOTE_COMMAND: u64 = 0x000_020;
pub const UID_COMMAND: u64 = 0x000_040;
pub const GUILD_ADMIN_GROUP: u64 = 0x000_080;
pub const CONFIG_COMMAND: u64 = 0x000_100;
pub const READ_CONFIG: u64 = 0x000_200;
pub const WRITE_CONFIG: u64 = 0x000_400;
pub const MODERATION_GROUP: u64 = 0x000_800;
pub const USERINFO_COMMAND: u64 = 0x001_000;

/// Union of every defined bit position.
pub const ALL_DEFINED: u64 = 0x001_FFF;

/// What deserialization keeps of a raw persisted bit pattern: every bit
/// outside the currently defined set is silently dropped, so that values
/// written by a future version with more bits still load.
pub open spec fn truncate_spec(raw: u64) -> u64 {
    raw & ALL_DEFINED
}

/// A set of named permission bits. The view of a mask is its raw 64-bit
/// pattern.
#[derive(Clone, Copy, PartialEq, Eq, Structural, Debug, Hash)]
pub struct GearBotPermissions {
    bits: u64,
}

impl View for GearBotPermissions {
    type V = u64;

    closed spec fn view(&self) -> u64 {
        self.bits
    }
}

impl GearBotPermissions {
    /// Only defined bit positions are set.
    pub open spec fn wf(self) -> bool {
        self@ & ALL_DEFINED == self@
    }

    /// The raw bit pattern, the form in which a mask is persisted.
    pub fn bits(&self) -> (r: u64)
        ensures
            r == self@,
    {
        self.bits
    }

    pub fn empty() -> (r: Self)
        ensures
            r@ == 0u64,
            r.wf(),
    {
        proof {
            assert(0u64 & ALL_DEFINED == 0u64) by (bit_vector);
        }
        GearBotPermissions { bits: 0 }
    }

    /// Load a mask from a raw bit pattern, silently dropping bits outside
    /// the defined set. This is the deserialization path for persisted
    /// masks.
    pub fn from_bits_truncate(raw: u64) -> (r: Self)
        ensures
            r@ == truncate_spec(raw),
            r.wf(),
    {
        proof {
            assert((raw & ALL_DEFINED) & ALL_DEFINED == raw & ALL_DEFINED) by (bit_vector);
        }
        GearBotPermissions { bits: raw & ALL_DEFINED }
    }

    pub fn union(self, other: Self) -> (r: Self)
        ensures
            r@ == (self@ | other@),
            self.wf() && other.wf() ==> r.wf(),
    {
        proof {
            let a = self.bits;
            let b = other.bits;
            assert(a & ALL_DEFINED == a && b & ALL_DEFINED == b ==> (a | b) & ALL_DEFINED == (a
                | b)) by (bit_vector);
        }
        GearBotPermissions { bits: self.bits | other.bits }
    }

    pub fn intersection(self, other: Self) -> (r: Self)
        ensures
            r@ == (self@ & other@),
            self.wf() && other.wf() ==> r.wf(),
    {
        proof {
            let a = self.bits;
            let b = other.bits;
            assert(a & ALL_DEFINED == a && b & ALL_DEFINED == b ==> (a & b) & ALL_DEFINED == (a
                & b)) by (bit_vector);
        }
        GearBotPermissions { bits: self.bits & other.bits }
    }

    /// Remove every bit of `other` from `self`.
    pub fn difference(self, other: Self) -> (r: Self)
        ensures
            r@ == (self@ & !other@),
            self.wf() ==> r.wf(),
    {
        proof {
            let a = self.bits;
            let b = other.bits;
            assert(a & ALL_DEFINED == a ==> (a & !b) & ALL_DEFINED == (a & !b)) by (bit_vector);
        }
        GearBotPermissions { bits: self.bits & !other.bits }
    }

    /// Does `self` hold every bit of `other`?
    pub fn contains(self, other: Self) -> (r: bool)
        ensures
            r == (self@ & other@ == other@),
    {
        self.bits & other.bits == other.bits
    }

    /// Does `self` hold at least one bit of `other`?
    pub fn intersects(self, other: Self) -> (r: bool)
        ensures
            r == (self@ & other@ != 0u64),
    {
        self.bits & other.bits != 0
    }

    pub fn is_empty(self) -> (r: bool)
        ensures
            r == (self@ == 0u64),
    {
        self.bits == 0
    }
}

/// A mask that holds only defined bits survives a serialize / deserialize
/// round trip unchanged: persisting it writes its raw bit pattern, and
/// truncating deserialization keeps every defined bit.
pub proof fn lemma_round_trip_preserves_defined(p: GearBotPermissions)
    requires
        p.wf(),
    ensures
        truncate_spec(p@) == p@,
{
}

/// Deserializing any raw bit pattern keeps exactly its defined bits: the
/// result is well formed, bits inside the defined set survive, and bits
/// outside it are dropped.
pub proof fn lemma_truncate_drops_undefined(raw: u64)
    ensures
        truncate_spec(raw) == raw & ALL_DEFINED,
        truncate_spec(raw) & ALL_DEFINED == truncate_spec(raw),
        truncate_spec(raw) & !ALL_DEFINED == 0u64,
{
    assert((raw & ALL_DEFINED) & ALL_DEFINED == raw & ALL_DEFINED) by (bit_vector);
    assert((raw & ALL_DEFINED) & !ALL_DEFINED == 0u64) by (bit_vector);
}

} // verus!
