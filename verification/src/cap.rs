//! Linux capability bits and the five per-task capability sets.

use vstd::prelude::*;

verus! {

/// Bit mask of every capability this kernel knows (bits 0 through 40).
pub const CAP_ALL_BITS: u64 = 0x1ff_ffff_ffff;

pub const CAP_CHOWN: u32 = 0;
pub const CAP_DAC_OVERRIDE: u32 = 1;
pub const CAP_KILL: u32 = 5;
pub const CAP_SETGID: u32 = 6;
pub const CAP_SETUID: u32 = 7;
pub const CAP_NET_BIND_SERVICE: u32 = 10;
pub const CAP_NET_ADMIN: u32 = 12;
pub const CAP_SYS_ADMIN: u32 = 21;
pub const CAP_SYS_NICE: u32 = 23;
pub const CAP_SYSLOG: u32 = 34;
pub const CAP_LAST_CAP: u32 = 40;

/// A set of capabilities, kept as its bit pattern.
#[derive(Clone, Copy, Debug, PartialEq, Eq, Structural)]
pub struct Capabilities {
    pub bits: u64,
}

impl Capabilities {
    /// Every known capability.
    pub fn full() -> (r: Self)
        ensures
            r.bits == CAP_ALL_BITS,
    {
        Capabilities { bits: CAP_ALL_BITS }
    }

    /// No capability at all.
    pub fn empty_set() -> (r: Self)
        ensures
            r.bits == 0,
    {
        Capabilities { bits: 0 }
    }

    /// Keeps only the known bits of `bits`.
    pub fn from_bits_truncate(bits: u64) -> (r: Self)
        ensures
            r.bits == bits & CAP_ALL_BITS,
    {
        Capabilities { bits: bits & CAP_ALL_BITS }
    }

    /// Whether every bit of `other` is set in `self`.
    pub fn contains(&self, other: Capabilities) -> (r: bool)
        ensures
            r == (self.bits & other.bits == other.bits),
    {
        self.bits & other.bits == other.bits
    }

    /// Sets the bits of `other`.
    pub fn insert(&mut self, other: Capabilities)
        ensures
            final(self).bits == old(self).bits | other.bits,
    {
        self.bits = self.bits | other.bits;
    }

    /// Clears the bits of `other`.
    pub fn remove(&mut self, other: Capabilities)
        ensures
            final(self).bits == old(self).bits & !other.bits,
    {
        self.bits = self.bits & !other.bits;
    }
}

/// The five capability sets that Linux keeps per task.
#[derive(Clone, Copy, Debug, PartialEq, Eq, Structural)]
pub struct CapabilitySet {
    pub effective: Capabilities,
    pub permitted: Capabilities,
    pub inheritable: Capabilities,
    pub bounding: Capabilities,
    pub ambient: Capabilities,
}

pub open spec fn spec_full_caps() -> CapabilitySet {
    CapabilitySet {
        effective: Capabilities { bits: CAP_ALL_BITS },
        permitted: Capabilities { bits: CAP_ALL_BITS },
        inheritable: Capabilities { bits: CAP_ALL_BITS },
        bounding: Capabilities { bits: CAP_ALL_BITS },
        ambient: Capabilities { bits: CAP_ALL_BITS },
    }
}

impl CapabilitySet {
    /// All five sets full: the credentials of root.
    pub fn full() -> (r: Self)
        ensures
            r == spec_full_caps(),
    {
        CapabilitySet {
            effective: Capabilities::full(),
            permitted: Capabilities::full(),
            inheritable: Capabilities::full(),
            bounding: Capabilities::full(),
            ambient: Capabilities::full(),
        }
    }

    /// All five sets empty.
    pub fn empty() -> (r: Self)
        ensures
            r.effective.bits == 0,
            r.permitted.bits == 0,
            r.inheritable.bits == 0,
            r.bounding.bits == 0,
            r.ambient.bits == 0,
    {
        CapabilitySet {
            effective: Capabilities::empty_set(),
            permitted: Capabilities::empty_set(),
            inheritable: Capabilities::empty_set(),
            bounding: Capabilities::empty_set(),
            ambient: Capabilities::empty_set(),
        }
    }

    /// Whether `cap` is in the effective set.
    pub fn has(&self, cap: Capabilities) -> (r: bool)
        ensures
            r == (self.effective.bits & cap.bits == cap.bits),
    {
        self.effective.contains(cap)
    }

    /// Whether all of `caps` are in the effective set.
    pub fn has_all(&self, caps: Capabilities) -> (r: bool)
        ensures
            r == (self.effective.bits & caps.bits == caps.bits),
    {
        self.effective.contains(caps)
    }

    /// Adds `cap` to the effective and permitted sets.
    pub fn add(&mut self, cap: Capabilities)
        ensures
            final(self).effective.bits == old(self).effective.bits | cap.bits,
            final(self).permitted.bits == old(self).permitted.bits | cap.bits,
            final(self).inheritable == old(self).inheritable,
            final(self).bounding == old(self).bounding,
            final(self).ambient == old(self).ambient,
    {
        self.effective.insert(cap);
        self.permitted.insert(cap);
    }

    /// Removes `cap` from the effective set.
    pub fn remove(&mut self, cap: Capabilities)
        ensures
            final(self).effective.bits == old(self).effective.bits & !cap.bits,
            final(self).permitted == old(self).permitted,
            final(self).inheritable == old(self).inheritable,
            final(self).bounding == old(self).bounding,
            final(self).ambient == old(self).ambient,
    {
        self.effective.remove(cap);
    }
}

/// The capability whose index is `cap_index`, if the index is known.
pub fn capability_from_u32(cap_index: u32) -> (r: Option<Capabilities>)
    ensures
        cap_index > CAP_LAST_CAP ==> r is None,
        cap_index <= CAP_LAST_CAP ==> r == Some(Capabilities { bits: 1u64 << cap_index }),
{
    if cap_index > CAP_LAST_CAP {
        return None;
    }
    let bit: u64 = 1u64 << cap_index;
    assert(bit & CAP_ALL_BITS == bit) by (bit_vector)
        requires
            bit == 1u64 << cap_index,
            cap_index <= 40,
    ;
    Some(Capabilities::from_bits_truncate(bit))
}

/// A known capability index names a capability that the full set holds,
/// and adding a capability makes the set hold it.
pub proof fn lemma_full_set_has_every_capability(cap_index: u32)
    requires
        cap_index <= CAP_LAST_CAP,
    ensures
        spec_full_caps().effective.bits & (1u64 << cap_index) == (1u64 << cap_index),
{
    let b: u64 = 1u64 << cap_index;
    assert(CAP_ALL_BITS & b == b) by (bit_vector)
        requires
            b == 1u64 << cap_index,
            cap_index <= 40,
    ;
}

/// After `add`, the effective set holds the added capability; after `remove`,
/// it no longer holds any of its bits.
pub proof fn lemma_add_then_has(bits: u64, cap: u64)
    ensures
        (bits | cap) & cap == cap,
        ((bits | cap) & !cap) & cap == 0,
{
    assert((bits | cap) & cap == cap) by (bit_vector);
    assert(((bits | cap) & !cap) & cap == 0) by (bit_vector);
}

} // verus!
