//! Task credentials.

use vstd::prelude::*;
use crate::cap::{CapabilitySet, spec_full_caps};

verus! {

pub const ROOT_UID: u32 = 0;
pub const ROOT_GID: u32 = 0;
/// `u32::MAX` in a `setres*id` argument leaves that id as it is.
pub const UID_UNCHANGED: u32 = 0xffff_ffff;
pub const GID_UNCHANGED: u32 = 0xffff_ffff;

/// User and group ids of a task, with its capability sets.
#[derive(Clone, Copy, Debug, PartialEq, Eq, Structural)]
pub struct Credential {
    pub uid: u32,
    pub gid: u32,
    pub euid: u32,
    pub egid: u32,
    pub suid: u32,
    pub sgid: u32,
    pub fsuid: u32,
    pub fsgid: u32,
    pub capabilities: CapabilitySet,
}

pub open spec fn spec_root_credential() -> Credential {
    Credential {
        uid: ROOT_UID,
        gid: ROOT_GID,
        euid: ROOT_UID,
        egid: ROOT_GID,
        suid: ROOT_UID,
        sgid: ROOT_GID,
        fsuid: ROOT_UID,
        fsgid: ROOT_GID,
        capabilities: spec_full_caps(),
    }
}

impl Credential {
    /// The credentials of root: every id 0 and every capability.
    pub fn root() -> (r: Self)
        ensures
            r == spec_root_credential(),
    {
        Credential {
            uid: ROOT_UID,
            gid: ROOT_GID,
            euid: ROOT_UID,
            egid: ROOT_GID,
            suid: ROOT_UID,
            sgid: ROOT_GID,
            fsuid: ROOT_UID,
            fsgid: ROOT_GID,
            capabilities: CapabilitySet::full(),
        }
    }

    /// Whether the effective user is root.
    pub fn is_root(&self) -> (r: bool)
        ensures
            r == (self.euid == ROOT_UID),
    {
        self.euid == ROOT_UID
    }
}

} // verus!
