//! Absolute axes: tablets, touch screens, joysticks.

use vstd::prelude::*;

verus! {

/// An absolute axis: one variant for each `ABS_*` code that the Linux input subsystem names. The
/// contact type of a touch screen (`ABS_MT_TOOL_TYPE`) is no axis: see [`ToolType`].
#[derive(Clone, Copy, Debug, PartialEq, Eq, Hash, Structural)]
pub enum AbsAxis {
    X,
    Y,
    Z,
    Rx,
    Ry,
    Rz,
    Throttle,
    Rudder,
    Wheel,
    Gas,
    Brake,
    Hat0X,
    Hat0Y,
    Hat1X,
    Hat1Y,
    Hat2X,
    Hat2Y,
    Hat3X,
    Hat3Y,
    Pressure,
    Distance,
    TiltX,
    TiltY,
    ToolWidth,
    Volume,
    Profile,
    Misc,
    MtSlot,
    MtTouchMajor,
    MtTouchMinor,
    MtWidthMajor,
    MtWidthMinor,
    MtOrientation,
    MtPositionX,
    MtPositionY,
    MtBlobId,
    MtTrackingId,
    MtPressure,
    MtDistance,
    MtToolX,
    MtToolY,
}

impl AbsAxis {
    /// The number of this axis in the Linux input subsystem.
    pub open spec fn code(self) -> u16 {
        match self {
            AbsAxis::X => 0,
            AbsAxis::Y => 1,
            AbsAxis::Z => 2,
            AbsAxis::Rx => 3,
            AbsAxis::Ry => 4,
            AbsAxis::Rz => 5,
            AbsAxis::Throttle => 6,
            AbsAxis::Rudder => 7,
            AbsAxis::Wheel => 8,
            AbsAxis::Gas => 9,
            AbsAxis::Brake => 10,
            AbsAxis::Hat0X => 16,
            AbsAxis::Hat0Y => 17,
            AbsAxis::Hat1X => 18,
            AbsAxis::Hat1Y => 19,
            AbsAxis::Hat2X => 20,
            AbsAxis::Hat2Y => 21,
            AbsAxis::Hat3X => 22,
            AbsAxis::Hat3Y => 23,
            AbsAxis::Pressure => 24,
            AbsAxis::Distance => 25,
            AbsAxis::TiltX => 26,
            AbsAxis::TiltY => 27,
            AbsAxis::ToolWidth => 28,
            AbsAxis::Volume => 32,
            AbsAxis::Profile => 33,
            AbsAxis::Misc => 40,
            AbsAxis::MtSlot => 47,
            AbsAxis::MtTouchMajor => 48,
            AbsAxis::MtTouchMinor => 49,
            AbsAxis::MtWidthMajor => 50,
            AbsAxis::MtWidthMinor => 51,
            AbsAxis::MtOrientation => 52,
            AbsAxis::MtPositionX => 53,
            AbsAxis::MtPositionY => 54,
            AbsAxis::MtBlobId => 56,
            AbsAxis::MtTrackingId => 57,
            AbsAxis::MtPressure => 58,
            AbsAxis::MtDistance => 59,
            AbsAxis::MtToolX => 60,
            AbsAxis::MtToolY => 61,
        }
    }

    /// The axis that a number stands for, where there is one.
    pub open spec fn of_code(code: u16) -> Option<AbsAxis> {
        match code {
            0 => Some(AbsAxis::X),
            1 => Some(AbsAxis::Y),
            2 => Some(AbsAxis::Z),
            3 => Some(AbsAxis::Rx),
            4 => Some(AbsAxis::Ry),
            5 => Some(AbsAxis::Rz),
            6 => Some(AbsAxis::Throttle),
            7 => Some(AbsAxis::Rudder),
            8 => Some(AbsAxis::Wheel),
            9 => Some(AbsAxis::Gas),
            10 => Some(AbsAxis::Brake),
            16 => Some(AbsAxis::Hat0X),
            17 => Some(AbsAxis::Hat0Y),
            18 => Some(AbsAxis::Hat1X),
            19 => Some(AbsAxis::Hat1Y),
            20 => Some(AbsAxis::Hat2X),
            21 => Some(AbsAxis::Hat2Y),
            22 => Some(AbsAxis::Hat3X),
            23 => Some(AbsAxis::Hat3Y),
            24 => Some(AbsAxis::Pressure),
            25 => Some(AbsAxis::Distance),
            26 => Some(AbsAxis::TiltX),
            27 => Some(AbsAxis::TiltY),
            28 => Some(AbsAxis::ToolWidth),
            32 => Some(AbsAxis::Volume),
            33 => Some(AbsAxis::Profile),
            40 => Some(AbsAxis::Misc),
            47 => Some(AbsAxis::MtSlot),
            48 => Some(AbsAxis::MtTouchMajor),
            49 => Some(AbsAxis::MtTouchMinor),
            50 => Some(AbsAxis::MtWidthMajor),
            51 => Some(AbsAxis::MtWidthMinor),
            52 => Some(AbsAxis::MtOrientation),
            53 => Some(AbsAxis::MtPositionX),
            54 => Some(AbsAxis::MtPositionY),
            56 => Some(AbsAxis::MtBlobId),
            57 => Some(AbsAxis::MtTrackingId),
            58 => Some(AbsAxis::MtPressure),
            59 => Some(AbsAxis::MtDistance),
            60 => Some(AbsAxis::MtToolX),
            61 => Some(AbsAxis::MtToolY),
            _ => None,
        }
    }

    pub fn from_raw(code: u16) -> (found: Option<AbsAxis>)
        ensures
            found == AbsAxis::of_code(code),
    {
        match code {
            0 => Some(AbsAxis::X),
            1 => Some(AbsAxis::Y),
            2 => Some(AbsAxis::Z),
            3 => Some(AbsAxis::Rx),
            4 => Some(AbsAxis::Ry),
            5 => Some(AbsAxis::Rz),
            6 => Some(AbsAxis::Throttle),
            7 => Some(AbsAxis::Rudder),
            8 => Some(AbsAxis::Wheel),
            9 => Some(AbsAxis::Gas),
            10 => Some(AbsAxis::Brake),
            16 => Some(AbsAxis::Hat0X),
            17 => Some(AbsAxis::Hat0Y),
            18 => Some(AbsAxis::Hat1X),
            19 => Some(AbsAxis::Hat1Y),
            20 => Some(AbsAxis::Hat2X),
            21 => Some(AbsAxis::Hat2Y),
            22 => Some(AbsAxis::Hat3X),
            23 => Some(AbsAxis::Hat3Y),
            24 => Some(AbsAxis::Pressure),
            25 => Some(AbsAxis::Distance),
            26 => Some(AbsAxis::TiltX),
            27 => Some(AbsAxis::TiltY),
            28 => Some(AbsAxis::ToolWidth),
            32 => Some(AbsAxis::Volume),
            33 => Some(AbsAxis::Profile),
            40 => Some(AbsAxis::Misc),
            47 => Some(AbsAxis::MtSlot),
            48 => Some(AbsAxis::MtTouchMajor),
            49 => Some(AbsAxis::MtTouchMinor),
            50 => Some(AbsAxis::MtWidthMajor),
            51 => Some(AbsAxis::MtWidthMinor),
            52 => Some(AbsAxis::MtOrientation),
            53 => Some(AbsAxis::MtPositionX),
            54 => Some(AbsAxis::MtPositionY),
            56 => Some(AbsAxis::MtBlobId),
            57 => Some(AbsAxis::MtTrackingId),
            58 => Some(AbsAxis::MtPressure),
            59 => Some(AbsAxis::MtDistance),
            60 => Some(AbsAxis::MtToolX),
            61 => Some(AbsAxis::MtToolY),
            _ => None,
        }
    }

    pub fn to_raw(&self) -> (code: Option<u16>)
        ensures
            code == Some(self.code()),
    {
        Some(match self {
            AbsAxis::X => 0,
            AbsAxis::Y => 1,
            AbsAxis::Z => 2,
            AbsAxis::Rx => 3,
            AbsAxis::Ry => 4,
            AbsAxis::Rz => 5,
            AbsAxis::Throttle => 6,
            AbsAxis::Rudder => 7,
            AbsAxis::Wheel => 8,
            AbsAxis::Gas => 9,
            AbsAxis::Brake => 10,
            AbsAxis::Hat0X => 16,
            AbsAxis::Hat0Y => 17,
            AbsAxis::Hat1X => 18,
            AbsAxis::Hat1Y => 19,
            AbsAxis::Hat2X => 20,
            AbsAxis::Hat2Y => 21,
            AbsAxis::Hat3X => 22,
            AbsAxis::Hat3Y => 23,
            AbsAxis::Pressure => 24,
            AbsAxis::Distance => 25,
            AbsAxis::TiltX => 26,
            AbsAxis::TiltY => 27,
            AbsAxis::ToolWidth => 28,
            AbsAxis::Volume => 32,
            AbsAxis::Profile => 33,
            AbsAxis::Misc => 40,
            AbsAxis::MtSlot => 47,
            AbsAxis::MtTouchMajor => 48,
            AbsAxis::MtTouchMinor => 49,
            AbsAxis::MtWidthMajor => 50,
            AbsAxis::MtWidthMinor => 51,
            AbsAxis::MtOrientation => 52,
            AbsAxis::MtPositionX => 53,
            AbsAxis::MtPositionY => 54,
            AbsAxis::MtBlobId => 56,
            AbsAxis::MtTrackingId => 57,
            AbsAxis::MtPressure => 58,
            AbsAxis::MtDistance => 59,
            AbsAxis::MtToolX => 60,
            AbsAxis::MtToolY => 61,
        })
    }
}

/// A number names exactly the axis whose number it is.
pub proof fn abs_axis_codes_round_trip(value: AbsAxis)
    ensures
        AbsAxis::of_code(value.code()) == Some(value),
{
}

/// A number that names an axis is the number of that axis.
pub proof fn abs_axis_code_is_kept(code: u16)
    ensures
        AbsAxis::of_code(code) matches Some(found) ==> found.code() == code,
{
}

/// What touches a touch screen: one variant for each `MT_TOOL_*` value.
#[derive(Clone, Copy, Debug, PartialEq, Eq, Hash, Structural)]
pub enum ToolType {
    Finger,
    Pen,
    Palm,
    Dial,
}

impl ToolType {
    /// The number of this contact type in the Linux input subsystem.
    pub open spec fn code(self) -> i32 {
        match self {
            ToolType::Finger => 0,
            ToolType::Pen => 1,
            ToolType::Palm => 2,
            ToolType::Dial => 10,
        }
    }

    /// The contact type that a number stands for, where there is one.
    pub open spec fn of_code(code: i32) -> Option<ToolType> {
        match code {
            0 => Some(ToolType::Finger),
            1 => Some(ToolType::Pen),
            2 => Some(ToolType::Palm),
            10 => Some(ToolType::Dial),
            _ => None,
        }
    }

    pub fn from_raw(code: i32) -> (found: Option<ToolType>)
        ensures
            found == ToolType::of_code(code),
    {
        match code {
            0 => Some(ToolType::Finger),
            1 => Some(ToolType::Pen),
            2 => Some(ToolType::Palm),
            10 => Some(ToolType::Dial),
            _ => None,
        }
    }

    pub fn to_raw(&self) -> (code: Option<i32>)
        ensures
            code == Some(self.code()),
    {
        Some(match self {
            ToolType::Finger => 0,
            ToolType::Pen => 1,
            ToolType::Palm => 2,
            ToolType::Dial => 10,
        })
    }
}

/// A number names exactly the contact type whose number it is.
pub proof fn tool_type_codes_round_trip(value: ToolType)
    ensures
        ToolType::of_code(value.code()) == Some(value),
{
}

/// A number that names a contact type is the number of that contact type.
pub proof fn tool_type_code_is_kept(code: i32)
    ensures
        ToolType::of_code(code) matches Some(found) ==> found.code() == code,
{
}

/// A position on an absolute axis, or the type of a contact.
#[derive(Clone, Copy, Debug, PartialEq, Eq, Hash, Structural)]
#[allow(inconsistent_fields)]
pub enum AbsEvent {
    Axis { axis: AbsAxis, value: i32 },
    MtToolType { value: ToolType },
}

/// The range and the quality of an absolute axis.
#[derive(Clone, Copy, Debug, PartialEq, Eq, Hash, Structural)]
pub struct AbsInfo {
    pub min: i32,
    pub max: i32,
    pub fuzz: i32,
    pub flat: i32,
    pub resolution: i32,
}

} // verus!
