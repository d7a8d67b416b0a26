//! Runtime authority: whether this process may reclaim a task.

use crate::control_plane::task_registry::TaskRecord;
use vstd::prelude::*;

verus! {

/// What probing a process with signal zero says.
#[derive(Clone, Copy, Debug, PartialEq, Eq, Structural)]
pub enum SignalProbe {
    /// The signal could be sent.
    Delivered,
    /// There is no such process.
    NoSuchProcess,
    /// Anything else, such as a denied permission.
    Unknown,
}

/// Whether a probe's word leaves the process for dead.
pub open spec fn probed_alive(p: SignalProbe) -> bool {
    p != SignalProbe::NoSuchProcess
}

/// Whether a process is alive. The process id zero stands for no process; one
/// that no process can have, and one whose probe says nothing certain, count as
/// alive. `probe` sends signal zero to a process id.
pub fn pid_is_alive(pid: u32, probe: impl Fn(i32) -> SignalProbe) -> (r: bool)
    requires
        0 < pid <= i32::MAX ==> call_requires(probe, (pid as i32,)),
    ensures
        pid == 0 ==> !r,
        pid > i32::MAX ==> r,
        0 < pid <= i32::MAX ==> exists|p: SignalProbe| #[trigger]
            call_ensures(probe, (pid as i32,), p) && r == probed_alive(p),
{
    if pid == 0 {
        return false;
    }
    if pid > 0x7fff_ffff {
        return true;
    }
    let p: SignalProbe = probe(pid as i32);
    p != SignalProbe::NoSuchProcess
}

/// Whether the owner of a task may be taken to be gone. The run id does not
/// count: another daemon can share the data directory, and a process id that is
/// used again only delays recovery.
pub fn is_authoritative_with_pid_liveness(
    rec: &TaskRecord,
    current_boot_id: &str,
    pid_is_alive: impl Fn(u32) -> bool,
) -> (r: bool)
    requires
        call_requires(pid_is_alive, (rec.owner_pid,)),
    ensures
        call_ensures(pid_is_alive, (rec.owner_pid,), !r),
{
    let alive: bool = pid_is_alive(rec.owner_pid);
    !alive
}

/// Whether this process may reclaim a task: its owner is dead. `probe` sends
/// signal zero to a process id.
pub fn is_authoritative(
    rec: &TaskRecord,
    current_boot_id: &str,
    probe: impl Fn(i32) -> SignalProbe,
) -> (r: bool)
    requires
        0 < rec.owner_pid <= i32::MAX ==> call_requires(probe, (rec.owner_pid as i32,)),
    ensures
        rec.owner_pid == 0 ==> r,
        rec.owner_pid > i32::MAX ==> !r,
        0 < rec.owner_pid <= i32::MAX ==> exists|p: SignalProbe| #[trigger]
            call_ensures(probe, (rec.owner_pid as i32,), p) && r == !probed_alive(p),
{
    !pid_is_alive(rec.owner_pid, probe)
}

} // verus!
