use vstd::prelude::*;

verus! {

/// Number of fixed-point steps that make up the full pan range; every such
/// value converts to `f32` exactly.
pub const PAN_UNIT: u32 = 16777216;

/// `x` forced into the pan range `[0, PAN_UNIT]`.
pub open spec fn clamp_to_unit(x: int) -> int {
    if x < 0 {
        0
    } else if x > PAN_UNIT as int {
        PAN_UNIT as int
    } else {
        x
    }
}

/// A pan position: `raw / PAN_UNIT` of the way from full left to full right.
#[derive(Clone, Copy, Debug, PartialEq, Eq, Structural)]
pub struct PanPosition {
    pub raw: u32,
}

impl PanPosition {
    /// The position lies inside the pan range.
    pub open spec fn valid(self) -> bool {
        self.raw <= PAN_UNIT
    }

    /// Full left.
    pub fn full_left() -> (r: PanPosition)
        ensures
            r.raw == 0,
            r.valid(),
    {
        PanPosition { raw: 0 }
    }

    /// The middle of the stage.
    pub fn centre() -> (r: PanPosition)
        ensures
            r.raw == PAN_UNIT / 2,
            r.valid(),
    {
        PanPosition { raw: PAN_UNIT / 2 }
    }

    /// Full right.
    pub fn full_right() -> (r: PanPosition)
        ensures
            r.raw == PAN_UNIT,
            r.valid(),
    {
        PanPosition { raw: PAN_UNIT }
    }

    /// The position [`PanPosition::clamped`] gives for `value`.
    pub open spec fn clamped_spec(value: int) -> PanPosition {
        PanPosition { raw: clamp_to_unit(value) as u32 }
    }

    /// The position of a control value given in fixed-point steps, clamped
    /// into the pan range, so that any input yields a usable position.
    pub fn clamped(value: i64) -> (r: PanPosition)
        ensures
            r.raw == clamp_to_unit(value as int),
            r == PanPosition::clamped_spec(value as int),
            r.valid(),
    {
        if value < 0 {
            PanPosition { raw: 0 }
        } else if value > PAN_UNIT as i64 {
            PanPosition { raw: PAN_UNIT }
        } else {
            PanPosition { raw: value as u32 }
        }
    }
}

} // verus!
