//! Buttons and their event codes.

use vstd::prelude::*;

verus! {

/// The ranges of event codes that the Linux input subsystem sets aside for buttons.
pub open spec fn is_button_range(code: u16) -> bool {
    0x100 <= code < 0x160 || 0x220 <= code < 0x230 || 0x2c0 <= code < 0x2e8
}

/// A button of a mouse, a joystick, a gamepad or a tablet: one variant for each `BTN_*` code that
/// the Linux input subsystem names.
#[derive(Clone, Copy, Debug, PartialEq, Eq, Hash, Structural)]
pub enum Button {
    Misc0,
    Misc1,
    Misc2,
    Misc3,
    Misc4,
    Misc5,
    Misc6,
    Misc7,
    Misc8,
    Misc9,
    Left,
    Right,
    Middle,
    Side,
    Extra,
    Forward,
    Back,
    Task,
    Trigger,
    Thumb,
    Thumb2,
    Top,
    Top2,
    Pinkie,
    Base,
    Base2,
    Base3,
    Base4,
    Base5,
    Base6,
    Dead,
    South,
    East,
    C,
    North,
    West,
    Z,
    Tl,
    Tr,
    Tl2,
    Tr2,
    Select,
    Start,
    Mode,
    Thumbl,
    Thumbr,
    ToolPen,
    ToolRubber,
    ToolBrush,
    ToolPencil,
    ToolAirbrush,
    ToolFinger,
    ToolMouse,
    ToolLens,
    ToolQuinttap,
    Stylus3,
    Touch,
    Stylus,
    Stylus2,
    ToolDoubletap,
    ToolTripletap,
    ToolQuadtap,
    GearDown,
    GearUp,
    DpadUp,
    DpadDown,
    DpadLeft,
    DpadRight,
    TriggerHappy1,
    TriggerHappy2,
    TriggerHappy3,
    TriggerHappy4,
    TriggerHappy5,
    TriggerHappy6,
    TriggerHappy7,
    TriggerHappy8,
    TriggerHappy9,
    TriggerHappy10,
    TriggerHappy11,
    TriggerHappy12,
    TriggerHappy13,
    TriggerHappy14,
    TriggerHappy15,
    TriggerHappy16,
    TriggerHappy17,
    TriggerHappy18,
    TriggerHappy19,
    TriggerHappy20,
    TriggerHappy21,
    TriggerHappy22,
    TriggerHappy23,
    TriggerHappy24,
    TriggerHappy25,
    TriggerHappy26,
    TriggerHappy27,
    TriggerHappy28,
    TriggerHappy29,
    TriggerHappy30,
    TriggerHappy31,
    TriggerHappy32,
    TriggerHappy33,
    TriggerHappy34,
    TriggerHappy35,
    TriggerHappy36,
    TriggerHappy37,
    TriggerHappy38,
    TriggerHappy39,
    TriggerHappy40,
}

impl Button {
    /// The event code of this button in the Linux input subsystem.
    #[verifier::opaque]
    pub open spec fn code(self) -> u16 {
        match self {
            Button::Misc0 => 256,
            Button::Misc1 => 257,
            Button::Misc2 => 258,
            Button::Misc3 => 259,
            Button::Misc4 => 260,
            Button::Misc5 => 261,
            Button::Misc6 => 262,
            Button::Misc7 => 263,
            Button::Misc8 => 264,
            Button::Misc9 => 265,
            Button::Left => 272,
            Button::Right => 273,
            Button::Middle => 274,
            Button::Side => 275,
            Button::Extra => 276,
            Button::Forward => 277,
            Button::Back => 278,
            Button::Task => 279,
            Button::Trigger => 288,
            Button::Thumb => 289,
            Button::Thumb2 => 290,
            Button::Top => 291,
            Button::Top2 => 292,
            Button::Pinkie => 293,
            Button::Base => 294,
            Button::Base2 => 295,
            Button::Base3 => 296,
            Button::Base4 => 297,
            Button::Base5 => 298,
            Button::Base6 => 299,
            Button::Dead => 303,
            Button::South => 304,
            Button::East => 305,
            Button::C => 306,
            Button::North => 307,
            Button::West => 308,
            Button::Z => 309,
            Button::Tl => 310,
            Button::Tr => 311,
            Button::Tl2 => 312,
            Button::Tr2 => 313,
            Button::Select => 314,
            Button::Start => 315,
            Button::Mode => 316,
            Button::Thumbl => 317,
            Button::Thumbr => 318,
            Button::ToolPen => 320,
            Button::ToolRubber => 321,
            Button::ToolBrush => 322,
            Button::ToolPencil => 323,
            Button::ToolAirbrush => 324,
            Button::ToolFinger => 325,
            Button::ToolMouse => 326,
            Button::ToolLens => 327,
            Button::ToolQuinttap => 328,
            Button::Stylus3 => 329,
            Button::Touch => 330,
            Button::Stylus => 331,
            Button::Stylus2 => 332,
            Button::ToolDoubletap => 333,
            Button::ToolTripletap => 334,
            Button::ToolQuadtap => 335,
            Button::GearDown => 336,
            Button::GearUp => 337,
            Button::DpadUp => 544,
            Button::DpadDown => 545,
            Button::DpadLeft => 546,
            Button::DpadRight => 547,
            Button::TriggerHappy1 => 704,
            Button::TriggerHappy2 => 705,
            Button::TriggerHappy3 => 706,
            Button::TriggerHappy4 => 707,
            Button::TriggerHappy5 => 708,
            Button::TriggerHappy6 => 709,
            Button::TriggerHappy7 => 710,
            Button::TriggerHappy8 => 711,
            Button::TriggerHappy9 => 712,
            Button::TriggerHappy10 => 713,
            Button::TriggerHappy11 => 714,
            Button::TriggerHappy12 => 715,
            Button::TriggerHappy13 => 716,
            Button::TriggerHappy14 => 717,
            Button::TriggerHappy15 => 718,
            Button::TriggerHappy16 => 719,
            Button::TriggerHappy17 => 720,
            Button::TriggerHappy18 => 721,
            Button::TriggerHappy19 => 722,
            Button::TriggerHappy20 => 723,
            Button::TriggerHappy21 => 724,
            Button::TriggerHappy22 => 725,
            Button::TriggerHappy23 => 726,
            Button::TriggerHappy24 => 727,
            Button::TriggerHappy25 => 728,
            Button::TriggerHappy26 => 729,
            Button::TriggerHappy27 => 730,
            Button::TriggerHappy28 => 731,
            Button::TriggerHappy29 => 732,
            Button::TriggerHappy30 => 733,
            Button::TriggerHappy31 => 734,
            Button::TriggerHappy32 => 735,
            Button::TriggerHappy33 => 736,
            Button::TriggerHappy34 => 737,
            Button::TriggerHappy35 => 738,
            Button::TriggerHappy36 => 739,
            Button::TriggerHappy37 => 740,
            Button::TriggerHappy38 => 741,
            Button::TriggerHappy39 => 742,
            Button::TriggerHappy40 => 743,
        }
    }

    /// The button that a code stands for, where there is one. The table is cut into pages of 64 codes.
    pub open spec fn of_code(code: u16) -> Option<Button> {
        if code < 320 {
            Button::of_code_4(code)
        } else if code < 384 {
            Button::of_code_5(code)
        } else if code < 576 {
            Button::of_code_8(code)
        } else {
            Button::of_code_11(code)
        }
    }

    #[verifier::opaque]
    pub open spec fn of_code_4(code: u16) -> Option<Button> {
        match code {
            256 => Some(Button::Misc0),
            257 => Some(Button::Misc1),
            258 => Some(Button::Misc2),
            259 => Some(Button::Misc3),
            260 => Some(Button::Misc4),
            261 => Some(Button::Misc5),
            262 => Some(Button::Misc6),
            263 => Some(Button::Misc7),
            264 => Some(Button::Misc8),
            265 => Some(Button::Misc9),
            272 => Some(Button::Left),
            273 => Some(Button::Right),
            274 => Some(Button::Middle),
            275 => Some(Button::Side),
            276 => Some(Button::Extra),
            277 => Some(Button::Forward),
            278 => Some(Button::Back),
            279 => Some(Button::Task),
            288 => Some(Button::Trigger),
            289 => Some(Button::Thumb),
            290 => Some(Button::Thumb2),
            291 => Some(Button::Top),
            292 => Some(Button::Top2),
            293 => Some(Button::Pinkie),
            294 => Some(Button::Base),
            295 => Some(Button::Base2),
            296 => Some(Button::Base3),
            297 => Some(Button::Base4),
            298 => Some(Button::Base5),
            299 => Some(Button::Base6),
            303 => Some(Button::Dead),
            304 => Some(Button::South),
            305 => Some(Button::East),
            306 => Some(Button::C),
            307 => Some(Button::North),
            308 => Some(Button::West),
            309 => Some(Button::Z),
            310 => Some(Button::Tl),
            311 => Some(Button::Tr),
            312 => Some(Button::Tl2),
            313 => Some(Button::Tr2),
            314 => Some(Button::Select),
            315 => Some(Button::Start),
            316 => Some(Button::Mode),
            317 => Some(Button::Thumbl),
            318 => Some(Button::Thumbr),
            _ => None,
        }
    }

    #[verifier::opaque]
    pub open spec fn of_code_5(code: u16) -> Option<Button> {
        match code {
            320 => Some(Button::ToolPen),
            321 => Some(Button::ToolRubber),
            322 => Some(Button::ToolBrush),
            323 => Some(Button::ToolPencil),
            324 => Some(Button::ToolAirbrush),
            325 => Some(Button::ToolFinger),
            326 => Some(Button::ToolMouse),
            327 => Some(Button::ToolLens),
            328 => Some(Button::ToolQuinttap),
            329 => Some(Button::Stylus3),
            330 => Some(Button::Touch),
            331 => Some(Button::Stylus),
            332 => Some(Button::Stylus2),
            333 => Some(Button::ToolDoubletap),
            334 => Some(Button::ToolTripletap),
            335 => Some(Button::ToolQuadtap),
            336 => Some(Button::GearDown),
            337 => Some(Button::GearUp),
            _ => None,
        }
    }

    #[verifier::opaque]
    pub open spec fn of_code_8(code: u16) -> Option<Button> {
        match code {
            544 => Some(Button::DpadUp),
            545 => Some(Button::DpadDown),
            546 => Some(Button::DpadLeft),
            547 => Some(Button::DpadRight),
            _ => None,
        }
    }

    #[verifier::opaque]
    pub open spec fn of_code_11(code: u16) -> Option<Button> {
        match code {
            704 => Some(Button::TriggerHappy1),
            705 => Some(Button::TriggerHappy2),
            706 => Some(Button::TriggerHappy3),
            707 => Some(Button::TriggerHappy4),
            708 => Some(Button::TriggerHappy5),
            709 => Some(Button::TriggerHappy6),
            710 => Some(Button::TriggerHappy7),
            711 => Some(Button::TriggerHappy8),
            712 => Some(Button::TriggerHappy9),
            713 => Some(Button::TriggerHappy10),
            714 => Some(Button::TriggerHappy11),
            715 => Some(Button::TriggerHappy12),
            716 => Some(Button::TriggerHappy13),
            717 => Some(Button::TriggerHappy14),
            718 => Some(Button::TriggerHappy15),
            719 => Some(Button::TriggerHappy16),
            720 => Some(Button::TriggerHappy17),
            721 => Some(Button::TriggerHappy18),
            722 => Some(Button::TriggerHappy19),
            723 => Some(Button::TriggerHappy20),
            724 => Some(Button::TriggerHappy21),
            725 => Some(Button::TriggerHappy22),
            726 => Some(Button::TriggerHappy23),
            727 => Some(Button::TriggerHappy24),
            728 => Some(Button::TriggerHappy25),
            729 => Some(Button::TriggerHappy26),
            730 => Some(Button::TriggerHappy27),
            731 => Some(Button::TriggerHappy28),
            732 => Some(Button::TriggerHappy29),
            733 => Some(Button::TriggerHappy30),
            734 => Some(Button::TriggerHappy31),
            735 => Some(Button::TriggerHappy32),
            736 => Some(Button::TriggerHappy33),
            737 => Some(Button::TriggerHappy34),
            738 => Some(Button::TriggerHappy35),
            739 => Some(Button::TriggerHappy36),
            740 => Some(Button::TriggerHappy37),
            741 => Some(Button::TriggerHappy38),
            742 => Some(Button::TriggerHappy39),
            743 => Some(Button::TriggerHappy40),
            _ => None,
        }
    }

    pub fn from_raw(code: u16) -> (found: Option<Button>)
        ensures
            found == Button::of_code(code),
    {
        if code < 320 {
            Button::from_raw_4(code)
        } else if code < 384 {
            Button::from_raw_5(code)
        } else if code < 576 {
            Button::from_raw_8(code)
        } else {
            Button::from_raw_11(code)
        }
    }

    fn from_raw_4(code: u16) -> (found: Option<Button>)
        ensures
            found == Button::of_code_4(code),
    {
        proof {
            reveal(Button::of_code_4);
        }
        match code {
            256 => Some(Button::Misc0),
            257 => Some(Button::Misc1),
            258 => Some(Button::Misc2),
            259 => Some(Button::Misc3),
            260 => Some(Button::Misc4),
            261 => Some(Button::Misc5),
            262 => Some(Button::Misc6),
            263 => Some(Button::Misc7),
            264 => Some(Button::Misc8),
            265 => Some(Button::Misc9),
            272 => Some(Button::Left),
            273 => Some(Button::Right),
            274 => Some(Button::Middle),
            275 => Some(Button::Side),
            276 => Some(Button::Extra),
            277 => Some(Button::Forward),
            278 => Some(Button::Back),
            279 => Some(Button::Task),
            288 => Some(Button::Trigger),
            289 => Some(Button::Thumb),
            290 => Some(Button::Thumb2),
            291 => Some(Button::Top),
            292 => Some(Button::Top2),
            293 => Some(Button::Pinkie),
            294 => Some(Button::Base),
            295 => Some(Button::Base2),
            296 => Some(Button::Base3),
            297 => Some(Button::Base4),
            298 => Some(Button::Base5),
            299 => Some(Button::Base6),
            303 => Some(Button::Dead),
            304 => Some(Button::South),
            305 => Some(Button::East),
            306 => Some(Button::C),
            307 => Some(Button::North),
            308 => Some(Button::West),
            309 => Some(Button::Z),
            310 => Some(Button::Tl),
            311 => Some(Button::Tr),
            312 => Some(Button::Tl2),
            313 => Some(Button::Tr2),
            314 => Some(Button::Select),
            315 => Some(Button::Start),
            316 => Some(Button::Mode),
            317 => Some(Button::Thumbl),
            318 => Some(Button::Thumbr),
            _ => None,
        }
    }

    fn from_raw_5(code: u16) -> (found: Option<Button>)
        ensures
            found == Button::of_code_5(code),
    {
        proof {
            reveal(Button::of_code_5);
        }
        match code {
            320 => Some(Button::ToolPen),
            321 => Some(Button::ToolRubber),
            322 => Some(Button::ToolBrush),
            323 => Some(Button::ToolPencil),
            324 => Some(Button::ToolAirbrush),
            325 => Some(Button::ToolFinger),
            326 => Some(Button::ToolMouse),
            327 => Some(Button::ToolLens),
            328 => Some(Button::ToolQuinttap),
            329 => Some(Button::Stylus3),
            330 => Some(Button::Touch),
            331 => Some(Button::Stylus),
            332 => Some(Button::Stylus2),
            333 => Some(Button::ToolDoubletap),
            334 => Some(Button::ToolTripletap),
            335 => Some(Button::ToolQuadtap),
            336 => Some(Button::GearDown),
            337 => Some(Button::GearUp),
            _ => None,
        }
    }

    fn from_raw_8(code: u16) -> (found: Option<Button>)
        ensures
            found == Button::of_code_8(code),
    {
        proof {
            reveal(Button::of_code_8);
        }
        match code {
            544 => Some(Button::DpadUp),
            545 => Some(Button::DpadDown),
            546 => Some(Button::DpadLeft),
            547 => Some(Button::DpadRight),
            _ => None,
        }
    }

    fn from_raw_11(code: u16) -> (found: Option<Button>)
        ensures
            found == Button::of_code_11(code),
    {
        proof {
            reveal(Button::of_code_11);
        }
        match code {
            704 => Some(Button::TriggerHappy1),
            705 => Some(Button::TriggerHappy2),
            706 => Some(Button::TriggerHappy3),
            707 => Some(Button::TriggerHappy4),
            708 => Some(Button::TriggerHappy5),
            709 => Some(Button::TriggerHappy6),
            710 => Some(Button::TriggerHappy7),
            711 => Some(Button::TriggerHappy8),
            712 => Some(Button::TriggerHappy9),
            713 => Some(Button::TriggerHappy10),
            714 => Some(Button::TriggerHappy11),
            715 => Some(Button::TriggerHappy12),
            716 => Some(Button::TriggerHappy13),
            717 => Some(Button::TriggerHappy14),
            718 => Some(Button::TriggerHappy15),
            719 => Some(Button::TriggerHappy16),
            720 => Some(Button::TriggerHappy17),
            721 => Some(Button::TriggerHappy18),
            722 => Some(Button::TriggerHappy19),
            723 => Some(Button::TriggerHappy20),
            724 => Some(Button::TriggerHappy21),
            725 => Some(Button::TriggerHappy22),
            726 => Some(Button::TriggerHappy23),
            727 => Some(Button::TriggerHappy24),
            728 => Some(Button::TriggerHappy25),
            729 => Some(Button::TriggerHappy26),
            730 => Some(Button::TriggerHappy27),
            731 => Some(Button::TriggerHappy28),
            732 => Some(Button::TriggerHappy29),
            733 => Some(Button::TriggerHappy30),
            734 => Some(Button::TriggerHappy31),
            735 => Some(Button::TriggerHappy32),
            736 => Some(Button::TriggerHappy33),
            737 => Some(Button::TriggerHappy34),
            738 => Some(Button::TriggerHappy35),
            739 => Some(Button::TriggerHappy36),
            740 => Some(Button::TriggerHappy37),
            741 => Some(Button::TriggerHappy38),
            742 => Some(Button::TriggerHappy39),
            743 => Some(Button::TriggerHappy40),
            _ => None,
        }
    }

    pub fn to_raw(&self) -> (code: Option<u16>)
        ensures
            code == Some(self.code()),
    {
        proof {
            reveal(Button::code);
        }
        Some(match self {
            Button::Misc0 => 256,
            Button::Misc1 => 257,
            Button::Misc2 => 258,
            Button::Misc3 => 259,
            Button::Misc4 => 260,
            Button::Misc5 => 261,
            Button::Misc6 => 262,
            Button::Misc7 => 263,
            Button::Misc8 => 264,
            Button::Misc9 => 265,
            Button::Left => 272,
            Button::Right => 273,
            Button::Middle => 274,
            Button::Side => 275,
            Button::Extra => 276,
            Button::Forward => 277,
            Button::Back => 278,
            Button::Task => 279,
            Button::Trigger => 288,
            Button::Thumb => 289,
            Button::Thumb2 => 290,
            Button::Top => 291,
            Button::Top2 => 292,
            Button::Pinkie => 293,
            Button::Base => 294,
            Button::Base2 => 295,
            Button::Base3 => 296,
            Button::Base4 => 297,
            Button::Base5 => 298,
            Button::Base6 => 299,
            Button::Dead => 303,
            Button::South => 304,
            Button::East => 305,
            Button::C => 306,
            Button::North => 307,
            Button::West => 308,
            Button::Z => 309,
            Button::Tl => 310,
            Button::Tr => 311,
            Button::Tl2 => 312,
            Button::Tr2 => 313,
            Button::Select => 314,
            Button::Start => 315,
            Button::Mode => 316,
            Button::Thumbl => 317,
            Button::Thumbr => 318,
            Button::ToolPen => 320,
            Button::ToolRubber => 321,
            Button::ToolBrush => 322,
            Button::ToolPencil => 323,
            Button::ToolAirbrush => 324,
            Button::ToolFinger => 325,
            Button::ToolMouse => 326,
            Button::ToolLens => 327,
            Button::ToolQuinttap => 328,
            Button::Stylus3 => 329,
            Button::Touch => 330,
            Button::Stylus => 331,
            Button::Stylus2 => 332,
            Button::ToolDoubletap => 333,
            Button::ToolTripletap => 334,
            Button::ToolQuadtap => 335,
            Button::GearDown => 336,
            Button::GearUp => 337,
            Button::DpadUp => 544,
            Button::DpadDown => 545,
            Button::DpadLeft => 546,
            Button::DpadRight => 547,
            Button::TriggerHappy1 => 704,
            Button::TriggerHappy2 => 705,
            Button::TriggerHappy3 => 706,
            Button::TriggerHappy4 => 707,
            Button::TriggerHappy5 => 708,
            Button::TriggerHappy6 => 709,
            Button::TriggerHappy7 => 710,
            Button::TriggerHappy8 => 711,
            Button::TriggerHappy9 => 712,
            Button::TriggerHappy10 => 713,
            Button::TriggerHappy11 => 714,
            Button::TriggerHappy12 => 715,
            Button::TriggerHappy13 => 716,
            Button::TriggerHappy14 => 717,
            Button::TriggerHappy15 => 718,
            Button::TriggerHappy16 => 719,
            Button::TriggerHappy17 => 720,
            Button::TriggerHappy18 => 721,
            Button::TriggerHappy19 => 722,
            Button::TriggerHappy20 => 723,
            Button::TriggerHappy21 => 724,
            Button::TriggerHappy22 => 725,
            Button::TriggerHappy23 => 726,
            Button::TriggerHappy24 => 727,
            Button::TriggerHappy25 => 728,
            Button::TriggerHappy26 => 729,
            Button::TriggerHappy27 => 730,
            Button::TriggerHappy28 => 731,
            Button::TriggerHappy29 => 732,
            Button::TriggerHappy30 => 733,
            Button::TriggerHappy31 => 734,
            Button::TriggerHappy32 => 735,
            Button::TriggerHappy33 => 736,
            Button::TriggerHappy34 => 737,
            Button::TriggerHappy35 => 738,
            Button::TriggerHappy36 => 739,
            Button::TriggerHappy37 => 740,
            Button::TriggerHappy38 => 741,
            Button::TriggerHappy39 => 742,
            Button::TriggerHappy40 => 743,
        })
    }
}

proof fn lemma_page_4()
    ensures
        Button::Misc0.code() == 256,
        Button::of_code_4(256) == Some(Button::Misc0),
        Button::Misc1.code() == 257,
        Button::of_code_4(257) == Some(Button::Misc1),
        Button::Misc2.code() == 258,
        Button::of_code_4(258) == Some(Button::Misc2),
        Button::Misc3.code() == 259,
        Button::of_code_4(259) == Some(Button::Misc3),
        Button::Misc4.code() == 260,
        Button::of_code_4(260) == Some(Button::Misc4),
        Button::Misc5.code() == 261,
        Button::of_code_4(261) == Some(Button::Misc5),
        Button::Misc6.code() == 262,
        Button::of_code_4(262) == Some(Button::Misc6),
        Button::Misc7.code() == 263,
        Button::of_code_4(263) == Some(Button::Misc7),
        Button::Misc8.code() == 264,
        Button::of_code_4(264) == Some(Button::Misc8),
        Button::Misc9.code() == 265,
        Button::of_code_4(265) == Some(Button::Misc9),
        Button::Left.code() == 272,
        Button::of_code_4(272) == Some(Button::Left),
        Button::Right.code() == 273,
        Button::of_code_4(273) == Some(Button::Right),
        Button::Middle.code() == 274,
        Button::of_code_4(274) == Some(Button::Middle),
        Button::Side.code() == 275,
        Button::of_code_4(275) == Some(Button::Side),
        Button::Extra.code() == 276,
        Button::of_code_4(276) == Some(Button::Extra),
        Button::Forward.code() == 277,
        Button::of_code_4(277) == Some(Button::Forward),
        Button::Back.code() == 278,
        Button::of_code_4(278) == Some(Button::Back),
        Button::Task.code() == 279,
        Button::of_code_4(279) == Some(Button::Task),
        Button::Trigger.code() == 288,
        Button::of_code_4(288) == Some(Button::Trigger),
        Button::Thumb.code() == 289,
        Button::of_code_4(289) == Some(Button::Thumb),
        Button::Thumb2.code() == 290,
        Button::of_code_4(290) == Some(Button::Thumb2),
        Button::Top.code() == 291,
        Button::of_code_4(291) == Some(Button::Top),
        Button::Top2.code() == 292,
        Button::of_code_4(292) == Some(Button::Top2),
        Button::Pinkie.code() == 293,
        Button::of_code_4(293) == Some(Button::Pinkie),
        Button::Base.code() == 294,
        Button::of_code_4(294) == Some(Button::Base),
        Button::Base2.code() == 295,
        Button::of_code_4(295) == Some(Button::Base2),
        Button::Base3.code() == 296,
        Button::of_code_4(296) == Some(Button::Base3),
        Button::Base4.code() == 297,
        Button::of_code_4(297) == Some(Button::Base4),
        Button::Base5.code() == 298,
        Button::of_code_4(298) == Some(Button::Base5),
        Button::Base6.code() == 299,
        Button::of_code_4(299) == Some(Button::Base6),
        Button::Dead.code() == 303,
        Button::of_code_4(303) == Some(Button::Dead),
        Button::South.code() == 304,
        Button::of_code_4(304) == Some(Button::South),
        Button::East.code() == 305,
        Button::of_code_4(305) == Some(Button::East),
        Button::C.code() == 306,
        Button::of_code_4(306) == Some(Button::C),
        Button::North.code() == 307,
        Button::of_code_4(307) == Some(Button::North),
        Button::West.code() == 308,
        Button::of_code_4(308) == Some(Button::West),
        Button::Z.code() == 309,
        Button::of_code_4(309) == Some(Button::Z),
        Button::Tl.code() == 310,
        Button::of_code_4(310) == Some(Button::Tl),
        Button::Tr.code() == 311,
        Button::of_code_4(311) == Some(Button::Tr),
        Button::Tl2.code() == 312,
        Button::of_code_4(312) == Some(Button::Tl2),
        Button::Tr2.code() == 313,
        Button::of_code_4(313) == Some(Button::Tr2),
        Button::Select.code() == 314,
        Button::of_code_4(314) == Some(Button::Select),
        Button::Start.code() == 315,
        Button::of_code_4(315) == Some(Button::Start),
        Button::Mode.code() == 316,
        Button::of_code_4(316) == Some(Button::Mode),
        Button::Thumbl.code() == 317,
        Button::of_code_4(317) == Some(Button::Thumbl),
        Button::Thumbr.code() == 318,
        Button::of_code_4(318) == Some(Button::Thumbr),
{
    reveal(Button::code);
    reveal(Button::of_code_4);
}

proof fn lemma_page_4_is_kept(code: u16)
    ensures
        Button::of_code_4(code) matches Some(found) ==> found.code() == code && is_button_range(code),
{
    reveal(Button::of_code_4);
    lemma_page_4();
}

proof fn lemma_page_5()
    ensures
        Button::ToolPen.code() == 320,
        Button::of_code_5(320) == Some(Button::ToolPen),
        Button::ToolRubber.code() == 321,
        Button::of_code_5(321) == Some(Button::ToolRubber),
        Button::ToolBrush.code() == 322,
        Button::of_code_5(322) == Some(Button::ToolBrush),
        Button::ToolPencil.code() == 323,
        Button::of_code_5(323) == Some(Button::ToolPencil),
        Button::ToolAirbrush.code() == 324,
        Button::of_code_5(324) == Some(Button::ToolAirbrush),
        Button::ToolFinger.code() == 325,
        Button::of_code_5(325) == Some(Button::ToolFinger),
        Button::ToolMouse.code() == 326,
        Button::of_code_5(326) == Some(Button::ToolMouse),
        Button::ToolLens.code() == 327,
        Button::of_code_5(327) == Some(Button::ToolLens),
        Button::ToolQuinttap.code() == 328,
        Button::of_code_5(328) == Some(Button::ToolQuinttap),
        Button::Stylus3.code() == 329,
        Button::of_code_5(329) == Some(Button::Stylus3),
        Button::Touch.code() == 330,
        Button::of_code_5(330) == Some(Button::Touch),
        Button::Stylus.code() == 331,
        Button::of_code_5(331) == Some(Button::Stylus),
        Button::Stylus2.code() == 332,
        Button::of_code_5(332) == Some(Button::Stylus2),
        Button::ToolDoubletap.code() == 333,
        Button::of_code_5(333) == Some(Button::ToolDoubletap),
        Button::ToolTripletap.code() == 334,
        Button::of_code_5(334) == Some(Button::ToolTripletap),
        Button::ToolQuadtap.code() == 335,
        Button::of_code_5(335) == Some(Button::ToolQuadtap),
        Button::GearDown.code() == 336,
        Button::of_code_5(336) == Some(Button::GearDown),
        Button::GearUp.code() == 337,
        Button::of_code_5(337) == Some(Button::GearUp),
{
    reveal(Button::code);
    reveal(Button::of_code_5);
}

proof fn lemma_page_5_is_kept(code: u16)
    ensures
        Button::of_code_5(code) matches Some(found) ==> found.code() == code && is_button_range(code),
{
    reveal(Button::of_code_5);
    lemma_page_5();
}

proof fn lemma_page_8()
    ensures
        Button::DpadUp.code() == 544,
        Button::of_code_8(544) == Some(Button::DpadUp),
        Button::DpadDown.code() == 545,
        Button::of_code_8(545) == Some(Button::DpadDown),
        Button::DpadLeft.code() == 546,
        Button::of_code_8(546) == Some(Button::DpadLeft),
        Button::DpadRight.code() == 547,
        Button::of_code_8(547) == Some(Button::DpadRight),
{
    reveal(Button::code);
    reveal(Button::of_code_8);
}

proof fn lemma_page_8_is_kept(code: u16)
    ensures
        Button::of_code_8(code) matches Some(found) ==> found.code() == code && is_button_range(code),
{
    reveal(Button::of_code_8);
    lemma_page_8();
}

proof fn lemma_page_11()
    ensures
        Button::TriggerHappy1.code() == 704,
        Button::of_code_11(704) == Some(Button::TriggerHappy1),
        Button::TriggerHappy2.code() == 705,
        Button::of_code_11(705) == Some(Button::TriggerHappy2),
        Button::TriggerHappy3.code() == 706,
        Button::of_code_11(706) == Some(Button::TriggerHappy3),
        Button::TriggerHappy4.code() == 707,
        Button::of_code_11(707) == Some(Button::TriggerHappy4),
        Button::TriggerHappy5.code() == 708,
        Button::of_code_11(708) == Some(Button::TriggerHappy5),
        Button::TriggerHappy6.code() == 709,
        Button::of_code_11(709) == Some(Button::TriggerHappy6),
        Button::TriggerHappy7.code() == 710,
        Button::of_code_11(710) == Some(Button::TriggerHappy7),
        Button::TriggerHappy8.code() == 711,
        Button::of_code_11(711) == Some(Button::TriggerHappy8),
        Button::TriggerHappy9.code() == 712,
        Button::of_code_11(712) == Some(Button::TriggerHappy9),
        Button::TriggerHappy10.code() == 713,
        Button::of_code_11(713) == Some(Button::TriggerHappy10),
        Button::TriggerHappy11.code() == 714,
        Button::of_code_11(714) == Some(Button::TriggerHappy11),
        Button::TriggerHappy12.code() == 715,
        Button::of_code_11(715) == Some(Button::TriggerHappy12),
        Button::TriggerHappy13.code() == 716,
        Button::of_code_11(716) == Some(Button::TriggerHappy13),
        Button::TriggerHappy14.code() == 717,
        Button::of_code_11(717) == Some(Button::TriggerHappy14),
        Button::TriggerHappy15.code() == 718,
        Button::of_code_11(718) == Some(Button::TriggerHappy15),
        Button::TriggerHappy16.code() == 719,
        Button::of_code_11(719) == Some(Button::TriggerHappy16),
        Button::TriggerHappy17.code() == 720,
        Button::of_code_11(720) == Some(Button::TriggerHappy17),
        Button::TriggerHappy18.code() == 721,
        Button::of_code_11(721) == Some(Button::TriggerHappy18),
        Button::TriggerHappy19.code() == 722,
        Button::of_code_11(722) == Some(Button::TriggerHappy19),
        Button::TriggerHappy20.code() == 723,
        Button::of_code_11(723) == Some(Button::TriggerHappy20),
        Button::TriggerHappy21.code() == 724,
        Button::of_code_11(724) == Some(Button::TriggerHappy21),
        Button::TriggerHappy22.code() == 725,
        Button::of_code_11(725) == Some(Button::TriggerHappy22),
        Button::TriggerHappy23.code() == 726,
        Button::of_code_11(726) == Some(Button::TriggerHappy23),
        Button::TriggerHappy24.code() == 727,
        Button::of_code_11(727) == Some(Button::TriggerHappy24),
        Button::TriggerHappy25.code() == 728,
        Button::of_code_11(728) == Some(Button::TriggerHappy25),
        Button::TriggerHappy26.code() == 729,
        Button::of_code_11(729) == Some(Button::TriggerHappy26),
        Button::TriggerHappy27.code() == 730,
        Button::of_code_11(730) == Some(Button::TriggerHappy27),
        Button::TriggerHappy28.code() == 731,
        Button::of_code_11(731) == Some(Button::TriggerHappy28),
        Button::TriggerHappy29.code() == 732,
        Button::of_code_11(732) == Some(Button::TriggerHappy29),
        Button::TriggerHappy30.code() == 733,
        Button::of_code_11(733) == Some(Button::TriggerHappy30),
        Button::TriggerHappy31.code() == 734,
        Button::of_code_11(734) == Some(Button::TriggerHappy31),
        Button::TriggerHappy32.code() == 735,
        Button::of_code_11(735) == Some(Button::TriggerHappy32),
        Button::TriggerHappy33.code() == 736,
        Button::of_code_11(736) == Some(Button::TriggerHappy33),
        Button::TriggerHappy34.code() == 737,
        Button::of_code_11(737) == Some(Button::TriggerHappy34),
        Button::TriggerHappy35.code() == 738,
        Button::of_code_11(738) == Some(Button::TriggerHappy35),
        Button::TriggerHappy36.code() == 739,
        Button::of_code_11(739) == Some(Button::TriggerHappy36),
        Button::TriggerHappy37.code() == 740,
        Button::of_code_11(740) == Some(Button::TriggerHappy37),
        Button::TriggerHappy38.code() == 741,
        Button::of_code_11(741) == Some(Button::TriggerHappy38),
        Button::TriggerHappy39.code() == 742,
        Button::of_code_11(742) == Some(Button::TriggerHappy39),
        Button::TriggerHappy40.code() == 743,
        Button::of_code_11(743) == Some(Button::TriggerHappy40),
{
    reveal(Button::code);
    reveal(Button::of_code_11);
}

proof fn lemma_page_11_is_kept(code: u16)
    ensures
        Button::of_code_11(code) matches Some(found) ==> found.code() == code && is_button_range(code),
{
    reveal(Button::of_code_11);
    lemma_page_11();
}

/// A code names exactly the button whose code it is.
pub proof fn button_codes_round_trip(button: Button)
    ensures
        Button::of_code(button.code()) == Some(button),
{
    match button {
        Button::Misc0
        | Button::Misc1
        | Button::Misc2
        | Button::Misc3
        | Button::Misc4
        | Button::Misc5
        | Button::Misc6
        | Button::Misc7
        | Button::Misc8
        | Button::Misc9
        | Button::Left
        | Button::Right
        | Button::Middle
        | Button::Side
        | Button::Extra
        | Button::Forward
        | Button::Back
        | Button::Task
        | Button::Trigger
        | Button::Thumb
        | Button::Thumb2
        | Button::Top
        | Button::Top2
        | Button::Pinkie
        | Button::Base
        | Button::Base2
        | Button::Base3
        | Button::Base4
        | Button::Base5
        | Button::Base6
        | Button::Dead
        | Button::South
        | Button::East
        | Button::C
        | Button::North
        | Button::West
        | Button::Z
        | Button::Tl
        | Button::Tr
        | Button::Tl2
        | Button::Tr2
        | Button::Select
        | Button::Start
        | Button::Mode
        | Button::Thumbl
        | Button::Thumbr => {
            lemma_page_4();
        },
        Button::ToolPen
        | Button::ToolRubber
        | Button::ToolBrush
        | Button::ToolPencil
        | Button::ToolAirbrush
        | Button::ToolFinger
        | Button::ToolMouse
        | Button::ToolLens
        | Button::ToolQuinttap
        | Button::Stylus3
        | Button::Touch
        | Button::Stylus
        | Button::Stylus2
        | Button::ToolDoubletap
        | Button::ToolTripletap
        | Button::ToolQuadtap
        | Button::GearDown
        | Button::GearUp => {
            lemma_page_5();
        },
        Button::DpadUp
        | Button::DpadDown
        | Button::DpadLeft
        | Button::DpadRight => {
            lemma_page_8();
        },
        Button::TriggerHappy1
        | Button::TriggerHappy2
        | Button::TriggerHappy3
        | Button::TriggerHappy4
        | Button::TriggerHappy5
        | Button::TriggerHappy6
        | Button::TriggerHappy7
        | Button::TriggerHappy8
        | Button::TriggerHappy9
        | Button::TriggerHappy10
        | Button::TriggerHappy11
        | Button::TriggerHappy12
        | Button::TriggerHappy13
        | Button::TriggerHappy14
        | Button::TriggerHappy15
        | Button::TriggerHappy16
        | Button::TriggerHappy17
        | Button::TriggerHappy18
        | Button::TriggerHappy19
        | Button::TriggerHappy20
        | Button::TriggerHappy21
        | Button::TriggerHappy22
        | Button::TriggerHappy23
        | Button::TriggerHappy24
        | Button::TriggerHappy25
        | Button::TriggerHappy26
        | Button::TriggerHappy27
        | Button::TriggerHappy28
        | Button::TriggerHappy29
        | Button::TriggerHappy30
        | Button::TriggerHappy31
        | Button::TriggerHappy32
        | Button::TriggerHappy33
        | Button::TriggerHappy34
        | Button::TriggerHappy35
        | Button::TriggerHappy36
        | Button::TriggerHappy37
        | Button::TriggerHappy38
        | Button::TriggerHappy39
        | Button::TriggerHappy40 => {
            lemma_page_11();
        },
    }
}

/// A code that names a button is the code of that button, and lies in a range set aside
/// for buttons.
pub proof fn button_code_is_kept(code: u16)
    ensures
        Button::of_code(code) matches Some(found) ==> found.code() == code && is_button_range(code),
{
    if code < 320 {
        lemma_page_4_is_kept(code);
    } else if code < 384 {
        lemma_page_5_is_kept(code);
    } else if code < 576 {
        lemma_page_8_is_kept(code);
    } else {
        lemma_page_11_is_kept(code);
    }
}

} // verus!
