//! `reboot` and `sysinfo`.

use vstd::prelude::*;
use crate::errno::EINVAL;

verus! {

pub const REBOOT_MAGIC1: u32 = 0xfee1_dead;
pub const REBOOT_MAGIC2: u32 = 672274793;
pub const REBOOT_MAGIC2A: u32 = 85072278;
pub const REBOOT_MAGIC2B: u32 = 369367448;
pub const REBOOT_MAGIC2C: u32 = 537993216;
pub const REBOOT_CMD_POWER_OFF: u32 = 0x4321_fedc;

/// The second magic number is one of the four accepted ones.
pub open spec fn magic2_ok(magic2: u32) -> bool {
    magic2 == REBOOT_MAGIC2 || magic2 == REBOOT_MAGIC2A || magic2 == REBOOT_MAGIC2B || magic2 == REBOOT_MAGIC2C
}

/// `reboot`: `-EINVAL` unless both magic numbers are right. The only
/// supported command is power-off (the second value is `true`: the caller
/// shuts the machine down); any other command does nothing and succeeds.
pub fn reboot(magic: i32, magic2: i32, op: i32) -> (r: (i32, bool))
    ensures
        magic as u32 != REBOOT_MAGIC1 || !magic2_ok(magic2 as u32) ==> r == (-EINVAL as i32, false),
        magic as u32 == REBOOT_MAGIC1 && magic2_ok(magic2 as u32) ==> r == (0i32, op as u32 == REBOOT_CMD_POWER_OFF),
{
    #[verifier::truncate]
    let m1 = magic as u32;
    #[verifier::truncate]
    let m2 = magic2 as u32;
    #[verifier::truncate]
    let o = op as u32;
    if m1 != REBOOT_MAGIC1 {
        return (-EINVAL, false);
    }
    if m2 != REBOOT_MAGIC2 && m2 != REBOOT_MAGIC2A && m2 != REBOOT_MAGIC2B && m2 != REBOOT_MAGIC2C {
        return (-EINVAL, false);
    }
    (0, o == REBOOT_CMD_POWER_OFF)
}

/// What `sysinfo` reports; the kernel fills in only the uptime.
#[derive(Clone, Copy, Debug, PartialEq, Eq, Structural)]
pub struct SysInfo {
    /// Seconds since boot.
    pub uptime: u64,
}

/// `sysinfo` after `ticks` timer ticks at `ticks_per_sec` a second: the
/// whole seconds elapsed.
pub fn sysinfo(ticks: u64, ticks_per_sec: u64) -> (r: SysInfo)
    requires
        ticks_per_sec > 0,
    ensures
        r.uptime == ticks / ticks_per_sec,
{
    SysInfo { uptime: ticks / ticks_per_sec }
}

} // verus!
