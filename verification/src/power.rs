//! Sequencing of suspend and resume across the service's stateful
//! sub-devices around a system power transition.
//!
//! On a suspend request the coordinator hands out the registered sub-devices
//! in registration order for their `suspend()` calls, the owning thread then
//! blocks until the OS grants resume permission, and on resume the
//! sub-devices are handed out in the exact reverse order for their
//! `resume()` calls. The endpoint allocation table is pure software state
//! and is never touched by a power transition.

use vstd::prelude::*;

verus! {

/// The coordinator's place in a power transition. Resume returns directly
/// to `Running`.
#[derive(Clone, Copy, Debug, PartialEq, Eq, Structural)]
pub enum PowerState {
    /// Normal service.
    Running,
    /// A suspend request arrived; sub-devices are being quiesced.
    SuspendPending,
    /// All sub-devices are quiesced; the thread blocks for the OS's resume
    /// signal.
    Suspended,
}

/// Sequences suspend/resume calls across registered sub-devices, identified
/// by opaque handles, and tracks where the service stands in a transition.
pub struct SuspendResumeCoordinator {
    devices: Vec<u32>,
    state: PowerState,
}

impl View for SuspendResumeCoordinator {
    type V = Seq<u32>;

    closed spec fn view(&self) -> Seq<u32> {
        self.devices@
    }
}

impl SuspendResumeCoordinator {
    /// The coordinator's place in the suspend/resume state machine.
    pub closed spec fn power_state(&self) -> PowerState {
        self.state
    }

    /// A fresh coordinator: no sub-devices, running.
    pub fn new() -> (r: SuspendResumeCoordinator)
        ensures
            r@ == Seq::<u32>::empty(),
            r.power_state() == PowerState::Running,
    {
        let r = SuspendResumeCoordinator { devices: Vec::new(), state: PowerState::Running };
        proof {
            assert(r@ =~= Seq::<u32>::empty());
        }
        r
    }

    /// The coordinator's current state, readable at run time.
    pub fn state(&self) -> (r: PowerState)
        ensures
            r == self.power_state(),
    {
        self.state
    }

    /// Register one more sub-device; it will be suspended after, and resumed
    /// before, everything registered earlier.
    pub fn register(&mut self, device: u32)
        ensures
            final(self)@ == old(self)@.push(device),
            final(self).power_state() == old(self).power_state(),
    {
        self.devices.push(device);
    }

    /// Accept a suspend request: the caller must now call `suspend()` on
    /// each returned handle, first to last, and then block on the OS's
    /// resume rendezvous.
    pub fn begin_suspend(&mut self) -> (order: Vec<u32>)
        requires
            old(self).power_state() == PowerState::Running,
        ensures
            final(self)@ == old(self)@,
            final(self).power_state() == PowerState::SuspendPending,
            order@ == old(self)@,
    {
        self.state = PowerState::SuspendPending;
        self.devices.clone()
    }

    /// Note that every sub-device is quiesced and the blocking wait for the
    /// OS's resume permission begins.
    pub fn enter_suspended(&mut self)
        requires
            old(self).power_state() == PowerState::SuspendPending,
        ensures
            final(self)@ == old(self)@,
            final(self).power_state() == PowerState::Suspended,
    {
        self.state = PowerState::Suspended;
    }

    /// Resume permission arrived: the caller must call `resume()` on each
    /// returned handle, first to last — the exact reverse of the suspend
    /// order — after which the service runs again.
    pub fn finish_resume(&mut self) -> (order: Vec<u32>)
        requires
            old(self).power_state() == PowerState::Suspended,
        ensures
            final(self)@ == old(self)@,
            final(self).power_state() == PowerState::Running,
            order@ == old(self)@.reverse(),
    {
        self.state = PowerState::Running;
        let n = self.devices.len();
        let mut order: Vec<u32> = Vec::new();
        let mut i: usize = 0;
        while i < n
            invariant
                n == self@.len(),
                0 <= i <= n,
                order@.len() == i,
                forall|j: int| 0 <= j < i ==> order@[j] == self@[n - 1 - j],
            decreases n - i,
        {
            order.push(self.devices[n - 1 - i]);
            i = i + 1;
        }
        proof {
            assert(order@ =~= self@.reverse());
        }
        order
    }
}

/// A full suspend/resume cycle is symmetric: for any registered device list,
/// the resume sequence is the element-wise reverse of the suspend sequence,
/// so the device suspended first is resumed last.
pub proof fn lemma_resume_reverses_suspend(devices: Seq<u32>)
    ensures
        devices.reverse().len() == devices.len(),
        forall|i: int|
            0 <= i < devices.len() ==> devices.reverse()[i] == devices[devices.len() - 1 - i],
{
}

} // verus!
