//! Relative axes: mice, wheels and dials.

use vstd::prelude::*;

verus! {

/// A relative axis: one variant for each `REL_*` code that the Linux input subsystem names.
#[derive(Clone, Copy, Debug, PartialEq, Eq, Hash, Structural)]
pub enum RelAxis {
    X,
    Y,
    Z,
    Rx,
    Ry,
    Rz,
    HWheel,
    Dial,
    Wheel,
    Misc,
    WheelHiRes,
    HWheelHiRes,
}

impl RelAxis {
    /// The number of this axis in the Linux input subsystem.
    pub open spec fn code(self) -> u16 {
        match self {
            RelAxis::X => 0,
            RelAxis::Y => 1,
            RelAxis::Z => 2,
            RelAxis::Rx => 3,
            RelAxis::Ry => 4,
            RelAxis::Rz => 5,
            RelAxis::HWheel => 6,
            RelAxis::Dial => 7,
            RelAxis::Wheel => 8,
            RelAxis::Misc => 9,
            RelAxis::WheelHiRes => 11,
            RelAxis::HWheelHiRes => 12,
        }
    }

    /// The axis that a number stands for, where there is one.
    pub open spec fn of_code(code: u16) -> Option<RelAxis> {
        match code {
            0 => Some(RelAxis::X),
            1 => Some(RelAxis::Y),
            2 => Some(RelAxis::Z),
            3 => Some(RelAxis::Rx),
            4 => Some(RelAxis::Ry),
            5 => Some(RelAxis::Rz),
            6 => Some(RelAxis::HWheel),
            7 => Some(RelAxis::Dial),
            8 => Some(RelAxis::Wheel),
            9 => Some(RelAxis::Misc),
            11 => Some(RelAxis::WheelHiRes),
            12 => Some(RelAxis::HWheelHiRes),
            _ => None,
        }
    }

    pub fn from_raw(code: u16) -> (found: Option<RelAxis>)
        ensures
            found == RelAxis::of_code(code),
    {
        match code {
            0 => Some(RelAxis::X),
            1 => Some(RelAxis::Y),
            2 => Some(RelAxis::Z),
            3 => Some(RelAxis::Rx),
            4 => Some(RelAxis::Ry),
            5 => Some(RelAxis::Rz),
            6 => Some(RelAxis::HWheel),
            7 => Some(RelAxis::Dial),
            8 => Some(RelAxis::Wheel),
            9 => Some(RelAxis::Misc),
            11 => Some(RelAxis::WheelHiRes),
            12 => Some(RelAxis::HWheelHiRes),
            _ => None,
        }
    }

    pub fn to_raw(&self) -> (code: Option<u16>)
        ensures
            code == Some(self.code()),
    {
        Some(match self {
            RelAxis::X => 0,
            RelAxis::Y => 1,
            RelAxis::Z => 2,
            RelAxis::Rx => 3,
            RelAxis::Ry => 4,
            RelAxis::Rz => 5,
            RelAxis::HWheel => 6,
            RelAxis::Dial => 7,
            RelAxis::Wheel => 8,
            RelAxis::Misc => 9,
            RelAxis::WheelHiRes => 11,
            RelAxis::HWheelHiRes => 12,
        })
    }
}

/// A number names exactly the axis whose number it is.
pub proof fn rel_axis_codes_round_trip(value: RelAxis)
    ensures
        RelAxis::of_code(value.code()) == Some(value),
{
}

/// A number that names an axis is the number of that axis.
pub proof fn rel_axis_code_is_kept(code: u16)
    ensures
        RelAxis::of_code(code) matches Some(found) ==> found.code() == code,
{
}

/// Movement along a relative axis.
#[derive(Clone, Copy, Debug, PartialEq, Eq, Hash, Structural)]
pub struct RelEvent {
    pub axis: RelAxis,
    pub value: i32,
}

} // verus!
