use vstd::prelude::*;
use crate::pan::PanPosition;
use crate::law::Options;
use crate::smoother::{RampState, Smoother};
use crate::channel::{ParameterChannel, Snapshot};

verus! {

/// What the audio context applies to one frame: a pan law and the smoothed
/// position to feed it.
#[derive(Clone, Copy, Debug, PartialEq, Eq, Structural)]
pub struct FrameControl {
    pub algorithm: Options,
    pub pan: PanPosition,
}

/// The decisions of the audio callback: once per block it takes in the
/// polled parameters, then for each frame it advances the ramp and names
/// the pan law and position that the frame's gains come from.
pub struct PanEngine {
    smoother: Smoother,
    algorithm: Options,
}

impl PanEngine {
    pub closed spec fn wf(&self) -> bool {
        self.smoother.wf()
    }

    /// The state of the pan ramp.
    pub closed spec fn ramp(&self) -> RampState {
        self.smoother@
    }

    /// The pan law in force.
    pub closed spec fn law(&self) -> Options {
        self.algorithm
    }

    /// An engine resting at `initial`, whose ramps take `window` samples.
    pub fn new(window: u32, initial: Snapshot) -> (r: PanEngine)
        requires
            window >= 1,
            initial.valid(),
        ensures
            r.wf(),
            r.ramp() == (RampState {
                window: window as nat,
                start: initial.pan.raw as int,
                current: initial.pan.raw as int,
                target: initial.pan.raw as int,
                remaining: 0,
            }),
            r.law() == initial.algorithm,
    {
        PanEngine { smoother: Smoother::new(window, initial.pan), algorithm: initial.algorithm }
    }

    /// Takes in the parameters of a new block: the pan law takes effect at
    /// once, a changed position starts a fresh ramp.
    pub fn begin_block(&mut self, snapshot: Snapshot)
        requires
            old(self).wf(),
            snapshot.valid(),
        ensures
            final(self).wf(),
            final(self).ramp() == old(self).ramp().retargeted(snapshot.pan.raw as int),
            final(self).law() == snapshot.algorithm,
    {
        self.smoother.set_target(snapshot.pan);
        self.algorithm = snapshot.algorithm;
    }

    /// Polls `channel` once and begins a block with what it held; returns
    /// the snapshot taken in.
    pub fn poll(&mut self, channel: &ParameterChannel) -> (r: Snapshot)
        requires
            old(self).wf(),
        ensures
            r.valid(),
            final(self).wf(),
            final(self).ramp() == old(self).ramp().retargeted(r.pan.raw as int),
            final(self).law() == r.algorithm,
    {
        let snapshot = channel.poll();
        self.begin_block(snapshot);
        snapshot
    }

    /// Advances the ramp by one frame and returns what that frame applies.
    pub fn next_frame(&mut self) -> (r: FrameControl)
        requires
            old(self).wf(),
        ensures
            final(self).wf(),
            final(self).ramp() == old(self).ramp().stepped(),
            final(self).law() == old(self).law(),
            r.algorithm == old(self).law(),
            r.pan.raw == final(self).ramp().current,
            r.pan.valid(),
    {
        let pan = self.smoother.step();
        FrameControl { algorithm: self.algorithm, pan }
    }

    /// The position now.
    pub fn current(&self) -> (r: PanPosition)
        requires
            self.wf(),
        ensures
            r.raw == self.ramp().current,
            r.valid(),
    {
        self.smoother.current()
    }

    /// The pan law in force.
    pub fn algorithm(&self) -> (r: Options)
        ensures
            r == self.law(),
    {
        self.algorithm
    }

    /// A ramp is under way.
    pub fn is_ramping(&self) -> (r: bool)
        ensures
            r == !self.ramp().idle(),
    {
        self.smoother.is_ramping()
    }
}

} // verus!
