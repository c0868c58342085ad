use vstd::prelude::*;
use std::sync::atomic::{AtomicU32, AtomicU8, Ordering};
use crate::pan::{PanPosition, PAN_UNIT};
use crate::law::{Options, code_of, option_of_code};

verus! {

/// The parameters the audio context works from: a pan position and a pan
/// law.
#[derive(Clone, Copy, Debug, PartialEq, Eq, Structural)]
pub struct Snapshot {
    pub pan: PanPosition,
    pub algorithm: Options,
}

impl Snapshot {
    pub open spec fn valid(self) -> bool {
        self.pan.valid()
    }

    /// The snapshot that a stored pan word and pan-law code stand for: a pan
    /// word past the range reads as full right, an unknown code as the
    /// constant-power law.
    pub fn decode(pan_word: u32, code: u8) -> (r: Snapshot)
        ensures
            r.pan.raw == (if pan_word <= PAN_UNIT {
                pan_word
            } else {
                PAN_UNIT
            }),
            r.algorithm == option_of_code(code),
            r.valid(),
    {
        let pan = if pan_word <= PAN_UNIT {
            pan_word
        } else {
            PAN_UNIT
        };
        Snapshot { pan: PanPosition { raw: pan }, algorithm: Options::from_code(code) }
    }
}

/// Lock-free hand-over of the latest pan position and pan law from one
/// control context to one audio context. Writes overwrite what is pending;
/// a poll reads whatever was written last, with relaxed ordering.
pub struct ParameterChannel {
    pan: AtomicU32,
    algorithm: AtomicU8,
}

impl ParameterChannel {
    /// A channel that holds `initial` until the first write.
    pub fn new(initial: Snapshot) -> (r: ParameterChannel)
        requires
            initial.valid(),
    {
        ParameterChannel {
            pan: AtomicU32::new(initial.pan.raw),
            algorithm: AtomicU8::new(initial.algorithm.code()),
        }
    }

    /// Publishes a pan position given in fixed-point steps, clamped into the
    /// pan range first; returns the position published.
    pub fn set_pan(&self, value: i64) -> (r: PanPosition)
        ensures
            r == PanPosition::clamped_spec(value as int),
            r.valid(),
    {
        let p = PanPosition::clamped(value);
        self.pan.store(p.raw, Ordering::Relaxed);
        p
    }

    /// Publishes the pan law; returns the code published.
    pub fn set_algorithm(&self, algorithm: Options) -> (r: u8)
        ensures
            r == code_of(algorithm),
            option_of_code(r) == algorithm,
    {
        let c = algorithm.code();
        self.algorithm.store(c, Ordering::Relaxed);
        c
    }

    /// The latest published parameters. Another context may write at any
    /// moment, so all that holds of every outcome is that the snapshot is
    /// usable: its position lies in the pan range.
    pub fn poll(&self) -> (r: Snapshot)
        ensures
            r.valid(),
    {
        let pan_word = self.pan.load(Ordering::Relaxed);
        let code = self.algorithm.load(Ordering::Relaxed);
        Snapshot::decode(pan_word, code)
    }
}

} // verus!
