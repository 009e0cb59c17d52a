//! The clock of the fixed-step simulation.

use vstd::prelude::*;

verus! {

/// The fixed step of the simulation and how far real time has run past the latest step,
/// both in microseconds. The overstep is always less than one step.
#[derive(Clone, Copy, Debug, PartialEq, Eq, Structural)]
pub struct FixedTime {
    timestep: u32,
    overstep: u32,
}

impl FixedTime {
    #[verifier::type_invariant]
    spec fn inv(self) -> bool {
        0 <= self.overstep < self.timestep
    }

    /// The length of one fixed step.
    pub closed spec fn spec_timestep(&self) -> u32 {
        self.timestep
    }

    /// The time that has passed since the latest fixed step.
    pub closed spec fn spec_overstep(&self) -> u32 {
        self.overstep
    }

    /// A clock with the given step and overstep, if the step is not zero and the
    /// overstep is less than the step.
    pub fn new(timestep: u32, overstep: u32) -> (time: Option<FixedTime>)
        ensures
            time is Some <==> overstep < timestep,
            time matches Some(t) ==> t.timestep() == timestep && t.overstep() == overstep,
    {
        if overstep < timestep {
            Some(FixedTime { timestep, overstep })
        } else {
            None
        }
    }

    #[verifier::when_used_as_spec(spec_timestep)]
    pub fn timestep(&self) -> (timestep: u32)
        ensures
            timestep == self.timestep(),
            timestep > 0,
    {
        proof {
            use_type_invariant(self);
        }
        self.timestep
    }

    #[verifier::when_used_as_spec(spec_overstep)]
    pub fn overstep(&self) -> (overstep: u32)
        ensures
            overstep == self.overstep(),
            overstep < self.timestep(),
    {
        proof {
            use_type_invariant(self);
        }
        self.overstep
    }

    /// How many fixed steps are due once `frame_delta` more microseconds have passed:
    /// one for each whole step of accumulated time, but no more than `max_ticks`.
    pub open spec fn pending_ticks(&self, frame_delta: int, max_ticks: int) -> int {
        let due = (self.overstep() + frame_delta) / (self.timestep() as int);
        if due <= max_ticks {
            due
        } else {
            max_ticks
        }
    }

    /// The overstep once `frame_delta` more microseconds have passed and the steps that
    /// were due have run: what is left of the accumulated time after all whole steps.
    /// Whole steps beyond the cap are dropped, not kept for later frames.
    pub open spec fn overstep_after(&self, frame_delta: int) -> int {
        (self.overstep() + frame_delta) % (self.timestep() as int)
    }

    /// Tells how many fixed steps are due once `frame_delta` more microseconds have
    /// passed, without letting them pass.
    pub fn pending(&self, frame_delta: u32, max_ticks: u32) -> (ticks: u32)
        ensures
            ticks == self.pending_ticks(frame_delta as int, max_ticks as int),
    {
        proof {
            use_type_invariant(self);
        }
        let total: u64 = self.overstep as u64 + frame_delta as u64;
        let due: u64 = total / (self.timestep as u64);
        if due <= max_ticks as u64 {
            due as u32
        } else {
            max_ticks
        }
    }

    /// Lets `frame_delta` microseconds pass and says how many fixed steps to run now.
    pub fn accumulate(&mut self, frame_delta: u32, max_ticks: u32) -> (ticks: u32)
        ensures
            ticks == old(self).pending_ticks(frame_delta as int, max_ticks as int),
            final(self).timestep() == old(self).timestep(),
            final(self).overstep() == old(self).overstep_after(frame_delta as int),
    {
        proof {
            use_type_invariant(&*self);
        }
        let total: u64 = self.overstep as u64 + frame_delta as u64;
        let step: u64 = self.timestep as u64;
        let due: u64 = total / step;
        let left: u64 = total % step;
        self.overstep = left as u32;
        if due <= max_ticks as u64 {
            due as u32
        } else {
            max_ticks
        }
    }
}

impl Default for FixedTime {
    /// Sixty-four steps a second, none of the next one begun.
    fn default() -> (time: FixedTime)
        ensures
            time.timestep() == 15_625,
            time.overstep() == 0,
    {
        FixedTime { timestep: 15_625, overstep: 0 }
    }
}

} // verus!
