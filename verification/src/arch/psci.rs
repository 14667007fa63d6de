//! Calls that switch processors on.

use vstd::prelude::*;

use crate::arch::mm::Platform;

verus! {

/// Switch a processor on.
pub const CPU_ON_64: u64 = 0xC400_0003;

pub const SUCCESS: i64 = 0;

pub const ALREADY_ON: i64 = -4;

/// How the firmware is called.
#[derive(Debug, Clone, Copy, PartialEq, Eq, Structural)]
pub enum Conduit {
    /// To the hypervisor.
    Hvc,
    /// To the secure monitor.
    Smc,
}

/// A call of the firmware: the first four registers.
#[derive(Debug, Clone, Copy, PartialEq, Eq, Structural)]
pub struct PsciCall {
    pub conduit: Conduit,
    pub x0: u64,
    pub x1: u64,
    pub x2: u64,
    pub x3: u64,
}

/// What became of a call.
#[derive(Debug, Clone, Copy, PartialEq, Eq, Structural)]
pub enum CpuOn {
    Started,
    AlreadyOn,
    Failed { status: i64 },
}

/// The call that switches a processor on at a physical address.
pub fn cpu_on(platform: Platform, target_mpidr: u64, entry_point: u64, context_id: u64) -> (call:
    PsciCall)
    ensures
        call == (PsciCall {
            conduit: match platform {
                Platform::Rpi5 => Conduit::Smc,
                Platform::Virt => Conduit::Hvc,
            },
            x0: CPU_ON_64,
            x1: target_mpidr,
            x2: entry_point,
            x3: context_id,
        }),
{
    let conduit = match platform {
        Platform::Rpi5 => Conduit::Smc,
        Platform::Virt => Conduit::Hvc,
    };
    PsciCall { conduit, x0: CPU_ON_64, x1: target_mpidr, x2: entry_point, x3: context_id }
}

pub open spec fn cpu_on_outcome(status: i64) -> CpuOn {
    if status == SUCCESS {
        CpuOn::Started
    } else if status == ALREADY_ON {
        CpuOn::AlreadyOn
    } else {
        CpuOn::Failed { status }
    }
}

/// What the returned status says.
pub fn outcome(status: i64) -> (outcome: CpuOn)
    ensures
        outcome == cpu_on_outcome(status),
{
    if status == SUCCESS {
        CpuOn::Started
    } else if status == ALREADY_ON {
        CpuOn::AlreadyOn
    } else {
        CpuOn::Failed { status }
    }
}

/// Law: a processor is switched on by function C4000003 with its affinity, where to start
/// and what to hand over, in this order; the firmware is reached through the secure monitor
/// on the Pi 5 and the hypervisor on the emulated board.
pub proof fn law_cpu_on_call(platform: Platform, mpidr: u64, entry: u64, ctx: u64, call: PsciCall)
    requires
        call_ensures(cpu_on, (platform, mpidr, entry, ctx), call),
    ensures
        call.x0 == 0xC400_0003,
        call.x1 == mpidr,
        call.x2 == entry,
        call.x3 == ctx,
        call.conduit is Smc <==> platform is Rpi5,
        call.conduit is Hvc <==> platform is Virt,
{
}

/// Law: zero is success, minus four says that the processor was on, and everything else is a
/// failure with that status.
pub proof fn law_cpu_on_status(status: i64)
    ensures
        cpu_on_outcome(status) is Started <==> status == 0,
        cpu_on_outcome(status) is AlreadyOn <==> status == -4,
        cpu_on_outcome(status) is Failed ==> cpu_on_outcome(status)->status == status,
{
}

} // verus!
