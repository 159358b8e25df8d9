//! Keyboard keys and their event codes.

use vstd::prelude::*;

verus! {

/// A key of a keyboard, a remote control or a similar device: one variant for each `KEY_*` code
/// that the Linux input subsystem names.
#[derive(Clone, Copy, Debug, PartialEq, Eq, Hash, Structural)]
pub enum Keyboard {
    Reserved,
    Esc,
    Num1,
    Num2,
    Num3,
    Num4,
    Num5,
    Num6,
    Num7,
    Num8,
    Num9,
    Num0,
    Minus,
    Equal,
    Backspace,
    Tab,
    Q,
    W,
    E,
    R,
    T,
    Y,
    U,
    I,
    O,
    P,
    LeftBrace,
    RightBrace,
    Enter,
    LeftCtrl,
    A,
    S,
    D,
    F,
    G,
    H,
    J,
    K,
    L,
    Semicolon,
    Apostrophe,
    Grave,
    LeftShift,
    Backslash,
    Z,
    X,
    C,
    V,
    B,
    N,
    M,
    Comma,
    Dot,
    Slash,
    RightShift,
    KpAsterisk,
    LeftAlt,
    Space,
    CapsLock,
    F1,
    F2,
    F3,
    F4,
    F5,
    F6,
    F7,
    F8,
    F9,
    F10,
    NumLock,
    ScrollLock,
    Kp7,
    Kp8,
    Kp9,
    KpMinus,
    Kp4,
    Kp5,
    Kp6,
    KpPlus,
    Kp1,
    Kp2,
    Kp3,
    Kp0,
    KpDot,
    ZenkakuHankaku,
    NonUsBackslash,
    F11,
    F12,
    Ro,
    Katakana,
    Hiragana,
    Henkan,
    KatakanaHiragana,
    Muhenkan,
    KpJpComma,
    KpEnter,
    RightCtrl,
    KpSlash,
    SysRq,
    RightAlt,
    LineFeed,
    Home,
    Up,
    PageUp,
    Left,
    Right,
    End,
    Down,
    PageDown,
    Insert,
    Delete,
    Macro,
    Mute,
    VolumeDown,
    VolumeUp,
    Power,
    KpEqual,
    KpPlusMinus,
    Pause,
    Scale,
    KpComma,
    Hangeul,
    Hanja,
    Yen,
    LeftMeta,
    RightMeta,
    Compose,
    Stop,
    Again,
    Props,
    Undo,
    Front,
    Copy,
    Open,
    Paste,
    Find,
    Cut,
    Help,
    Menu,
    Calc,
    Setup,
    Sleep,
    WakeUp,
    File,
    SendFile,
    DeleteFile,
    Xfer,
    Prog1,
    Prog2,
    Www,
    MsDos,
    Coffee,
    RotateDisplay,
    CycleWindows,
    Mail,
    Bookmarks,
    Computer,
    Back,
    Forward,
    CloseCd,
    EjectCd,
    EjectCloseCd,
    NextSong,
    PlayPause,
    PreviousSong,
    StopCd,
    Record,
    Rewind,
    Phone,
    Iso,
    Config,
    HomePage,
    Refresh,
    Exit,
    Move,
    Edit,
    ScrollUp,
    ScrollDown,
    KpLeftParen,
    KpRightParen,
    New,
    Redo,
    F13,
    F14,
    F15,
    F16,
    F17,
    F18,
    F19,
    F20,
    F21,
    F22,
    F23,
    F24,
    PlayCd,
    PauseCd,
    Prog3,
    Prog4,
    AllApplications,
    Suspend,
    Close,
    Play,
    FastForward,
    BassBoost,
    Print,
    Hp,
    Camera,
    Sound,
    Question,
    Email,
    Chat,
    Search,
    Connect,
    Finance,
    Sport,
    Shop,
    AltErase,
    Cancel,
    BrightnessDown,
    BrightnessUp,
    Media,
    SwitchVideoMode,
    KbdIllumToggle,
    KbdIllumDown,
    KbdIllumUp,
    Send,
    Reply,
    ForwardMail,
    Save,
    Documents,
    Battery,
    Bluetooth,
    Wlan,
    Uwb,
    Unknown,
    VideoNext,
    VideoPrev,
    BrightnessCycle,
    BrightnessAuto,
    DisplayOff,
    Wwan,
    Rfkill,
    MicMute,
    OkKey,
    Select,
    Goto,
    Clear,
    Power2,
    OptionKey,
    Info,
    Time,
    Vendor,
    Archive,
    Program,
    Channel,
    Favorites,
    Epg,
    Pvr,
    Mhp,
    Language,
    Title,
    Subtitle,
    Angle,
    FullScreen,
    Mode,
    Keyboard,
    AspectRatio,
    Pc,
    Tv,
    Tv2,
    Vcr,
    Vcr2,
    Sat,
    Sat2,
    Cd,
    Tape,
    Radio,
    Tuner,
    Player,
    Text,
    Dvd,
    Aux,
    Mp3,
    Audio,
    Video,
    Directory,
    List,
    Memo,
    Calendar,
    Red,
    Green,
    Yellow,
    Blue,
    ChannelUp,
    ChannelDown,
    First,
    Last,
    Ab,
    Next,
    Restart,
    Slow,
    Shuffle,
    Break,
    Previous,
    Digits,
    Teen,
    Twen,
    VideoPhone,
    Games,
    ZoomIn,
    ZoomOut,
    ZoomReset,
    WordProcessor,
    Editor,
    Spreadsheet,
    GraphicsEditor,
    Presentation,
    Database,
    News,
    VoiceMail,
    AddressBook,
    Messenger,
    DisplayToggle,
    SpellCheck,
    LogOff,
    Dollar,
    Euro,
    FrameBack,
    FrameForward,
    ContextMenu,
    MediaRepeat,
    TenChannelsUp,
    TenChannelsDown,
    Images,
    NotificationCenter,
    PickupPhone,
    HangupPhone,
    LinkPhone,
    DelEol,
    DelEos,
    InsLine,
    DelLine,
    Fn,
    FnEsc,
    FnF1,
    FnF2,
    FnF3,
    FnF4,
    FnF5,
    FnF6,
    FnF7,
    FnF8,
    FnF9,
    FnF10,
    FnF11,
    FnF12,
    Fn1,
    Fn2,
    FnD,
    FnE,
    FnF,
    FnS,
    FnB,
    FnRightShift,
    BrlDot1,
    BrlDot2,
    BrlDot3,
    BrlDot4,
    BrlDot5,
    BrlDot6,
    BrlDot7,
    BrlDot8,
    BrlDot9,
    BrlDot10,
    Numeric0,
    Numeric1,
    Numeric2,
    Numeric3,
    Numeric4,
    Numeric5,
    Numeric6,
    Numeric7,
    Numeric8,
    Numeric9,
    NumericStar,
    NumericPound,
    NumericA,
    NumericB,
    NumericC,
    NumericD,
    CameraFocus,
    WpsButton,
    TouchpadToggle,
    TouchpadOn,
    TouchpadOff,
    CameraZoomIn,
    CameraZoomOut,
    CameraUp,
    CameraDown,
    CameraLeft,
    CameraRight,
    AttendantOn,
    AttendantOff,
    AttendantToggle,
    LightsToggle,
    AlsToggle,
    RotateLockToggle,
    RefreshRateToggle,
    ButtonConfig,
    TaskManager,
    Journal,
    ControlPanel,
    AppSelect,
    ScreenSaver,
    VoiceCommand,
    Assistant,
    KbdLayoutNext,
    EmojiPicker,
    Dictate,
    BrightnessMin,
    BrightnessMax,
    KbdInputAssistPrev,
    KbdInputAssistNext,
    KbdInputAssistPrevGroup,
    KbdInputAssistNextGroup,
    KbdInputAssistAccept,
    KbdInputAssistCancel,
    RightUp,
    RightDown,
    LeftUp,
    LeftDown,
    RootMenu,
    MediaTopMenu,
    Numeric11,
    Numeric12,
    AudioDesc,
    ThreeDMode,
    NextFavorite,
    StopRecord,
    PauseRecord,
    Vod,
    Unmute,
    FastReverse,
    SlowReverse,
    Data,
    OnScreenKeyboard,
    PrivacyScreenToggle,
    SelectiveScreenshot,
    NextElement,
    PreviousElement,
    AutopilotEngageToggle,
    MarkWaypoint,
    Sos,
    NavChart,
    FishingChart,
    SingleRangeRadar,
    DualRangeRadar,
    RadarOverlay,
    TraditionalSonar,
    ClearvuSonar,
    SidevuSonar,
    NavInfo,
    BrightnessMenu,
    Macro1,
    Macro2,
    Macro3,
    Macro4,
    Macro5,
    Macro6,
    Macro7,
    Macro8,
    Macro9,
    Macro10,
    Macro11,
    Macro12,
    Macro13,
    Macro14,
    Macro15,
    Macro16,
    Macro17,
    Macro18,
    Macro19,
    Macro20,
    Macro21,
    Macro22,
    Macro23,
    Macro24,
    Macro25,
    Macro26,
    Macro27,
    Macro28,
    Macro29,
    Macro30,
    MacroRecordStart,
    MacroRecordStop,
    MacroPresetCycle,
    MacroPreset1,
    MacroPreset2,
    MacroPreset3,
    KbdLcdMenu1,
    KbdLcdMenu2,
    KbdLcdMenu3,
    KbdLcdMenu4,
    KbdLcdMenu5,
}

impl Keyboard {
    /// The event code of this key in the Linux input subsystem.
    #[verifier::opaque]
    pub open spec fn code(self) -> u16 {
        match self {
            Keyboard::Reserved => 0,
            Keyboard::Esc => 1,
            Keyboard::Num1 => 2,
            Keyboard::Num2 => 3,
            Keyboard::Num3 => 4,
            Keyboard::Num4 => 5,
            Keyboard::Num5 => 6,
            Keyboard::Num6 => 7,
            Keyboard::Num7 => 8,
            Keyboard::Num8 => 9,
            Keyboard::Num9 => 10,
            Keyboard::Num0 => 11,
            Keyboard::Minus => 12,
            Keyboard::Equal => 13,
            Keyboard::Backspace => 14,
            Keyboard::Tab => 15,
            Keyboard::Q => 16,
            Keyboard::W => 17,
            Keyboard::E => 18,
            Keyboard::R => 19,
            Keyboard::T => 20,
            Keyboard::Y => 21,
            Keyboard::U => 22,
            Keyboard::I => 23,
            Keyboard::O => 24,
            Keyboard::P => 25,
            Keyboard::LeftBrace => 26,
            Keyboard::RightBrace => 27,
            Keyboard::Enter => 28,
            Keyboard::LeftCtrl => 29,
            Keyboard::A => 30,
            Keyboard::S => 31,
            Keyboard::D => 32,
            Keyboard::F => 33,
            Keyboard::G => 34,
            Keyboard::H => 35,
            Keyboard::J => 36,
            Keyboard::K => 37,
            Keyboard::L => 38,
            Keyboard::Semicolon => 39,
            Keyboard::Apostrophe => 40,
            Keyboard::Grave => 41,
            Keyboard::LeftShift => 42,
            Keyboard::Backslash => 43,
            Keyboard::Z => 44,
            Keyboard::X => 45,
            Keyboard::C => 46,
            Keyboard::V => 47,
            Keyboard::B => 48,
            Keyboard::N => 49,
            Keyboard::M => 50,
            Keyboard::Comma => 51,
            Keyboard::Dot => 52,
            Keyboard::Slash => 53,
            Keyboard::RightShift => 54,
            Keyboard::KpAsterisk => 55,
            Keyboard::LeftAlt => 56,
            Keyboard::Space => 57,
            Keyboard::CapsLock => 58,
            Keyboard::F1 => 59,
            Keyboard::F2 => 60,
            Keyboard::F3 => 61,
            Keyboard::F4 => 62,
            Keyboard::F5 => 63,
            Keyboard::F6 => 64,
            Keyboard::F7 => 65,
            Keyboard::F8 => 66,
            Keyboard::F9 => 67,
            Keyboard::F10 => 68,
            Keyboard::NumLock => 69,
            Keyboard::ScrollLock => 70,
            Keyboard::Kp7 => 71,
            Keyboard::Kp8 => 72,
            Keyboard::Kp9 => 73,
            Keyboard::KpMinus => 74,
            Keyboard::Kp4 => 75,
            Keyboard::Kp5 => 76,
            Keyboard::Kp6 => 77,
            Keyboard::KpPlus => 78,
            Keyboard::Kp1 => 79,
            Keyboard::Kp2 => 80,
            Keyboard::Kp3 => 81,
            Keyboard::Kp0 => 82,
            Keyboard::KpDot => 83,
            Keyboard::ZenkakuHankaku => 85,
            Keyboard::NonUsBackslash => 86,
            Keyboard::F11 => 87,
            Keyboard::F12 => 88,
            Keyboard::Ro => 89,
            Keyboard::Katakana => 90,
            Keyboard::Hiragana => 91,
            Keyboard::Henkan => 92,
            Keyboard::KatakanaHiragana => 93,
            Keyboard::Muhenkan => 94,
            Keyboard::KpJpComma => 95,
            Keyboard::KpEnter => 96,
            Keyboard::RightCtrl => 97,
            Keyboard::KpSlash => 98,
            Keyboard::SysRq => 99,
            Keyboard::RightAlt => 100,
            Keyboard::LineFeed => 101,
            Keyboard::Home => 102,
            Keyboard::Up => 103,
            Keyboard::PageUp => 104,
            Keyboard::Left => 105,
            Keyboard::Right => 106,
            Keyboard::End => 107,
            Keyboard::Down => 108,
            Keyboard::PageDown => 109,
            Keyboard::Insert => 110,
            Keyboard::Delete => 111,
            Keyboard::Macro => 112,
            Keyboard::Mute => 113,
            Keyboard::VolumeDown => 114,
            Keyboard::VolumeUp => 115,
            Keyboard::Power => 116,
            Keyboard::KpEqual => 117,
            Keyboard::KpPlusMinus => 118,
            Keyboard::Pause => 119,
            Keyboard::Scale => 120,
            Keyboard::KpComma => 121,
            Keyboard::Hangeul => 122,
            Keyboard::Hanja => 123,
            Keyboard::Yen => 124,
            Keyboard::LeftMeta => 125,
            Keyboard::RightMeta => 126,
            Keyboard::Compose => 127,
            Keyboard::Stop => 128,
            Keyboard::Again => 129,
            Keyboard::Props => 130,
            Keyboard::Undo => 131,
            Keyboard::Front => 132,
            Keyboard::Copy => 133,
            Keyboard::Open => 134,
            Keyboard::Paste => 135,
            Keyboard::Find => 136,
            Keyboard::Cut => 137,
            Keyboard::Help => 138,
            Keyboard::Menu => 139,
            Keyboard::Calc => 140,
            Keyboard::Setup => 141,
            Keyboard::Sleep => 142,
            Keyboard::WakeUp => 143,
            Keyboard::File => 144,
            Keyboard::SendFile => 145,
            Keyboard::DeleteFile => 146,
            Keyboard::Xfer => 147,
            Keyboard::Prog1 => 148,
            Keyboard::Prog2 => 149,
            Keyboard::Www => 150,
            Keyboard::MsDos => 151,
            Keyboard::Coffee => 152,
            Keyboard::RotateDisplay => 153,
            Keyboard::CycleWindows => 154,
            Keyboard::Mail => 155,
            Keyboard::Bookmarks => 156,
            Keyboard::Computer => 157,
            Keyboard::Back => 158,
            Keyboard::Forward => 159,
            Keyboard::CloseCd => 160,
            Keyboard::EjectCd => 161,
            Keyboard::EjectCloseCd => 162,
            Keyboard::NextSong => 163,
            Keyboard::PlayPause => 164,
            Keyboard::PreviousSong => 165,
            Keyboard::StopCd => 166,
            Keyboard::Record => 167,
            Keyboard::Rewind => 168,
            Keyboard::Phone => 169,
            Keyboard::Iso => 170,
            Keyboard::Config => 171,
            Keyboard::HomePage => 172,
            Keyboard::Refresh => 173,
            Keyboard::Exit => 174,
            Keyboard::Move => 175,
            Keyboard::Edit => 176,
            Keyboard::ScrollUp => 177,
            Keyboard::ScrollDown => 178,
            Keyboard::KpLeftParen => 179,
            Keyboard::KpRightParen => 180,
            Keyboard::New => 181,
            Keyboard::Redo => 182,
            Keyboard::F13 => 183,
            Keyboard::F14 => 184,
            Keyboard::F15 => 185,
            Keyboard::F16 => 186,
            Keyboard::F17 => 187,
            Keyboard::F18 => 188,
            Keyboard::F19 => 189,
            Keyboard::F20 => 190,
            Keyboard::F21 => 191,
            Keyboard::F22 => 192,
            Keyboard::F23 => 193,
            Keyboard::F24 => 194,
            Keyboard::PlayCd => 200,
            Keyboard::PauseCd => 201,
            Keyboard::Prog3 => 202,
            Keyboard::Prog4 => 203,
            Keyboard::AllApplications => 204,
            Keyboard::Suspend => 205,
            Keyboard::Close => 206,
            Keyboard::Play => 207,
            Keyboard::FastForward => 208,
            Keyboard::BassBoost => 209,
            Keyboard::Print => 210,
            Keyboard::Hp => 211,
            Keyboard::Camera => 212,
            Keyboard::Sound => 213,
            Keyboard::Question => 214,
            Keyboard::Email => 215,
            Keyboard::Chat => 216,
            Keyboard::Search => 217,
            Keyboard::Connect => 218,
            Keyboard::Finance => 219,
            Keyboard::Sport => 220,
            Keyboard::Shop => 221,
            Keyboard::AltErase => 222,
            Keyboard::Cancel => 223,
            Keyboard::BrightnessDown => 224,
            Keyboard::BrightnessUp => 225,
            Keyboard::Media => 226,
            Keyboard::SwitchVideoMode => 227,
            Keyboard::KbdIllumToggle => 228,
            Keyboard::KbdIllumDown => 229,
            Keyboard::KbdIllumUp => 230,
            Keyboard::Send => 231,
            Keyboard::Reply => 232,
            Keyboard::ForwardMail => 233,
            Keyboard::Save => 234,
            Keyboard::Documents => 235,
            Keyboard::Battery => 236,
            Keyboard::Bluetooth => 237,
            Keyboard::Wlan => 238,
            Keyboard::Uwb => 239,
            Keyboard::Unknown => 240,
            Keyboard::VideoNext => 241,
            Keyboard::VideoPrev => 242,
            Keyboard::BrightnessCycle => 243,
            Keyboard::BrightnessAuto => 244,
            Keyboard::DisplayOff => 245,
            Keyboard::Wwan => 246,
            Keyboard::Rfkill => 247,
            Keyboard::MicMute => 248,
            Keyboard::OkKey => 352,
            Keyboard::Select => 353,
            Keyboard::Goto => 354,
            Keyboard::Clear => 355,
            Keyboard::Power2 => 356,
            Keyboard::OptionKey => 357,
            Keyboard::Info => 358,
            Keyboard::Time => 359,
            Keyboard::Vendor => 360,
            Keyboard::Archive => 361,
            Keyboard::Program => 362,
            Keyboard::Channel => 363,
            Keyboard::Favorites => 364,
            Keyboard::Epg => 365,
            Keyboard::Pvr => 366,
            Keyboard::Mhp => 367,
            Keyboard::Language => 368,
            Keyboard::Title => 369,
            Keyboard::Subtitle => 370,
            Keyboard::Angle => 371,
            Keyboard::FullScreen => 372,
            Keyboard::Mode => 373,
            Keyboard::Keyboard => 374,
            Keyboard::AspectRatio => 375,
            Keyboard::Pc => 376,
            Keyboard::Tv => 377,
            Keyboard::Tv2 => 378,
            Keyboard::Vcr => 379,
            Keyboard::Vcr2 => 380,
            Keyboard::Sat => 381,
            Keyboard::Sat2 => 382,
            Keyboard::Cd => 383,
            Keyboard::Tape => 384,
            Keyboard::Radio => 385,
            Keyboard::Tuner => 386,
            Keyboard::Player => 387,
            Keyboard::Text => 388,
            Keyboard::Dvd => 389,
            Keyboard::Aux => 390,
            Keyboard::Mp3 => 391,
            Keyboard::Audio => 392,
            Keyboard::Video => 393,
            Keyboard::Directory => 394,
            Keyboard::List => 395,
            Keyboard::Memo => 396,
            Keyboard::Calendar => 397,
            Keyboard::Red => 398,
            Keyboard::Green => 399,
            Keyboard::Yellow => 400,
            Keyboard::Blue => 401,
            Keyboard::ChannelUp => 402,
            Keyboard::ChannelDown => 403,
            Keyboard::First => 404,
            Keyboard::Last => 405,
            Keyboard::Ab => 406,
            Keyboard::Next => 407,
            Keyboard::Restart => 408,
            Keyboard::Slow => 409,
            Keyboard::Shuffle => 410,
            Keyboard::Break => 411,
            Keyboard::Previous => 412,
            Keyboard::Digits => 413,
            Keyboard::Teen => 414,
            Keyboard::Twen => 415,
            Keyboard::VideoPhone => 416,
            Keyboard::Games => 417,
            Keyboard::ZoomIn => 418,
            Keyboard::ZoomOut => 419,
            Keyboard::ZoomReset => 420,
            Keyboard::WordProcessor => 421,
            Keyboard::Editor => 422,
            Keyboard::Spreadsheet => 423,
            Keyboard::GraphicsEditor => 424,
            Keyboard::Presentation => 425,
            Keyboard::Database => 426,
            Keyboard::News => 427,
            Keyboard::VoiceMail => 428,
            Keyboard::AddressBook => 429,
            Keyboard::Messenger => 430,
            Keyboard::DisplayToggle => 431,
            Keyboard::SpellCheck => 432,
            Keyboard::LogOff => 433,
            Keyboard::Dollar => 434,
            Keyboard::Euro => 435,
            Keyboard::FrameBack => 436,
            Keyboard::FrameForward => 437,
            Keyboard::ContextMenu => 438,
            Keyboard::MediaRepeat => 439,
            Keyboard::TenChannelsUp => 440,
            Keyboard::TenChannelsDown => 441,
            Keyboard::Images => 442,
            Keyboard::NotificationCenter => 444,
            Keyboard::PickupPhone => 445,
            Keyboard::HangupPhone => 446,
            Keyboard::LinkPhone => 447,
            Keyboard::DelEol => 448,
            Keyboard::DelEos => 449,
            Keyboard::InsLine => 450,
            Keyboard::DelLine => 451,
            Keyboard::Fn => 464,
            Keyboard::FnEsc => 465,
            Keyboard::FnF1 => 466,
            Keyboard::FnF2 => 467,
            Keyboard::FnF3 => 468,
            Keyboard::FnF4 => 469,
            Keyboard::FnF5 => 470,
            Keyboard::FnF6 => 471,
            Keyboard::FnF7 => 472,
            Keyboard::FnF8 => 473,
            Keyboard::FnF9 => 474,
            Keyboard::FnF10 => 475,
            Keyboard::FnF11 => 476,
            Keyboard::FnF12 => 477,
            Keyboard::Fn1 => 478,
            Keyboard::Fn2 => 479,
            Keyboard::FnD => 480,
            Keyboard::FnE => 481,
            Keyboard::FnF => 482,
            Keyboard::FnS => 483,
            Keyboard::FnB => 484,
            Keyboard::FnRightShift => 485,
            Keyboard::BrlDot1 => 497,
            Keyboard::BrlDot2 => 498,
            Keyboard::BrlDot3 => 499,
            Keyboard::BrlDot4 => 500,
            Keyboard::BrlDot5 => 501,
            Keyboard::BrlDot6 => 502,
            Keyboard::BrlDot7 => 503,
            Keyboard::BrlDot8 => 504,
            Keyboard::BrlDot9 => 505,
            Keyboard::BrlDot10 => 506,
            Keyboard::Numeric0 => 512,
            Keyboard::Numeric1 => 513,
            Keyboard::Numeric2 => 514,
            Keyboard::Numeric3 => 515,
            Keyboard::Numeric4 => 516,
            Keyboard::Numeric5 => 517,
            Keyboard::Numeric6 => 518,
            Keyboard::Numeric7 => 519,
            Keyboard::Numeric8 => 520,
            Keyboard::Numeric9 => 521,
            Keyboard::NumericStar => 522,
            Keyboard::NumericPound => 523,
            Keyboard::NumericA => 524,
            Keyboard::NumericB => 525,
            Keyboard::NumericC => 526,
            Keyboard::NumericD => 527,
            Keyboard::CameraFocus => 528,
            Keyboard::WpsButton => 529,
            Keyboard::TouchpadToggle => 530,
            Keyboard::TouchpadOn => 531,
            Keyboard::TouchpadOff => 532,
            Keyboard::CameraZoomIn => 533,
            Keyboard::CameraZoomOut => 534,
            Keyboard::CameraUp => 535,
            Keyboard::CameraDown => 536,
            Keyboard::CameraLeft => 537,
            Keyboard::CameraRight => 538,
            Keyboard::AttendantOn => 539,
            Keyboard::AttendantOff => 540,
            Keyboard::AttendantToggle => 541,
            Keyboard::LightsToggle => 542,
            Keyboard::AlsToggle => 560,
            Keyboard::RotateLockToggle => 561,
            Keyboard::RefreshRateToggle => 562,
            Keyboard::ButtonConfig => 576,
            Keyboard::TaskManager => 577,
            Keyboard::Journal => 578,
            Keyboard::ControlPanel => 579,
            Keyboard::AppSelect => 580,
            Keyboard::ScreenSaver => 581,
            Keyboard::VoiceCommand => 582,
            Keyboard::Assistant => 583,
            Keyboard::KbdLayoutNext => 584,
            Keyboard::EmojiPicker => 585,
            Keyboard::Dictate => 586,
            Keyboard::BrightnessMin => 592,
            Keyboard::BrightnessMax => 593,
            Keyboard::KbdInputAssistPrev => 608,
            Keyboard::KbdInputAssistNext => 609,
            Keyboard::KbdInputAssistPrevGroup => 610,
            Keyboard::KbdInputAssistNextGroup => 611,
            Keyboard::KbdInputAssistAccept => 612,
            Keyboard::KbdInputAssistCancel => 613,
            Keyboard::RightUp => 614,
            Keyboard::RightDown => 615,
            Keyboard::LeftUp => 616,
            Keyboard::LeftDown => 617,
            Keyboard::RootMenu => 618,
            Keyboard::MediaTopMenu => 619,
            Keyboard::Numeric11 => 620,
            Keyboard::Numeric12 => 621,
            Keyboard::AudioDesc => 622,
            Keyboard::ThreeDMode => 623,
            Keyboard::NextFavorite => 624,
            Keyboard::StopRecord => 625,
            Keyboard::PauseRecord => 626,
            Keyboard::Vod => 627,
            Keyboard::Unmute => 628,
            Keyboard::FastReverse => 629,
            Keyboard::SlowReverse => 630,
            Keyboard::Data => 631,
            Keyboard::OnScreenKeyboard => 632,
            Keyboard::PrivacyScreenToggle => 633,
            Keyboard::SelectiveScreenshot => 634,
            Keyboard::NextElement => 635,
            Keyboard::PreviousElement => 636,
            Keyboard::AutopilotEngageToggle => 637,
            Keyboard::MarkWaypoint => 638,
            Keyboard::Sos => 639,
            Keyboard::NavChart => 640,
            Keyboard::FishingChart => 641,
            Keyboard::SingleRangeRadar => 642,
            Keyboard::DualRangeRadar => 643,
            Keyboard::RadarOverlay => 644,
            Keyboard::TraditionalSonar => 645,
            Keyboard::ClearvuSonar => 646,
            Keyboard::SidevuSonar => 647,
            Keyboard::NavInfo => 648,
            Keyboard::BrightnessMenu => 649,
            Keyboard::Macro1 => 656,
            Keyboard::Macro2 => 657,
            Keyboard::Macro3 => 658,
            Keyboard::Macro4 => 659,
            Keyboard::Macro5 => 660,
            Keyboard::Macro6 => 661,
            Keyboard::Macro7 => 662,
            Keyboard::Macro8 => 663,
            Keyboard::Macro9 => 664,
            Keyboard::Macro10 => 665,
            Keyboard::Macro11 => 666,
            Keyboard::Macro12 => 667,
            Keyboard::Macro13 => 668,
            Keyboard::Macro14 => 669,
            Keyboard::Macro15 => 670,
            Keyboard::Macro16 => 671,
            Keyboard::Macro17 => 672,
            Keyboard::Macro18 => 673,
            Keyboard::Macro19 => 674,
            Keyboard::Macro20 => 675,
            Keyboard::Macro21 => 676,
            Keyboard::Macro22 => 677,
            Keyboard::Macro23 => 678,
            Keyboard::Macro24 => 679,
            Keyboard::Macro25 => 680,
            Keyboard::Macro26 => 681,
            Keyboard::Macro27 => 682,
            Keyboard::Macro28 => 683,
            Keyboard::Macro29 => 684,
            Keyboard::Macro30 => 685,
            Keyboard::MacroRecordStart => 688,
            Keyboard::MacroRecordStop => 689,
            Keyboard::MacroPresetCycle => 690,
            Keyboard::MacroPreset1 => 691,
            Keyboard::MacroPreset2 => 692,
            Keyboard::MacroPreset3 => 693,
            Keyboard::KbdLcdMenu1 => 696,
            Keyboard::KbdLcdMenu2 => 697,
            Keyboard::KbdLcdMenu3 => 698,
            Keyboard::KbdLcdMenu4 => 699,
            Keyboard::KbdLcdMenu5 => 700,
        }
    }

    /// The key that a code stands for, where there is one. The table is cut into pages of 64 codes.
    pub open spec fn of_code(code: u16) -> Option<Keyboard> {
        if code < 64 {
            Keyboard::of_code_0(code)
        } else if code < 128 {
            Keyboard::of_code_1(code)
        } else if code < 192 {
            Keyboard::of_code_2(code)
        } else if code < 256 {
            Keyboard::of_code_3(code)
        } else if code < 384 {
            Keyboard::of_code_5(code)
        } else if code < 448 {
            Keyboard::of_code_6(code)
        } else if code < 512 {
            Keyboard::of_code_7(code)
        } else if code < 576 {
            Keyboard::of_code_8(code)
        } else if code < 640 {
            Keyboard::of_code_9(code)
        } else {
            Keyboard::of_code_10(code)
        }
    }

    #[verifier::opaque]
    pub open spec fn of_code_0(code: u16) -> Option<Keyboard> {
        match code {
            0 => Some(Keyboard::Reserved),
            1 => Some(Keyboard::Esc),
            2 => Some(Keyboard::Num1),
            3 => Some(Keyboard::Num2),
            4 => Some(Keyboard::Num3),
            5 => Some(Keyboard::Num4),
            6 => Some(Keyboard::Num5),
            7 => Some(Keyboard::Num6),
            8 => Some(Keyboard::Num7),
            9 => Some(Keyboard::Num8),
            10 => Some(Keyboard::Num9),
            11 => Some(Keyboard::Num0),
            12 => Some(Keyboard::Minus),
            13 => Some(Keyboard::Equal),
            14 => Some(Keyboard::Backspace),
            15 => Some(Keyboard::Tab),
            16 => Some(Keyboard::Q),
            17 => Some(Keyboard::W),
            18 => Some(Keyboard::E),
            19 => Some(Keyboard::R),
            20 => Some(Keyboard::T),
            21 => Some(Keyboard::Y),
            22 => Some(Keyboard::U),
            23 => Some(Keyboard::I),
            24 => Some(Keyboard::O),
            25 => Some(Keyboard::P),
            26 => Some(Keyboard::LeftBrace),
            27 => Some(Keyboard::RightBrace),
            28 => Some(Keyboard::Enter),
            29 => Some(Keyboard::LeftCtrl),
            30 => Some(Keyboard::A),
            31 => Some(Keyboard::S),
            32 => Some(Keyboard::D),
            33 => Some(Keyboard::F),
            34 => Some(Keyboard::G),
            35 => Some(Keyboard::H),
            36 => Some(Keyboard::J),
            37 => Some(Keyboard::K),
            38 => Some(Keyboard::L),
            39 => Some(Keyboard::Semicolon),
            40 => Some(Keyboard::Apostrophe),
            41 => Some(Keyboard::Grave),
            42 => Some(Keyboard::LeftShift),
            43 => Some(Keyboard::Backslash),
            44 => Some(Keyboard::Z),
            45 => Some(Keyboard::X),
            46 => Some(Keyboard::C),
            47 => Some(Keyboard::V),
            48 => Some(Keyboard::B),
            49 => Some(Keyboard::N),
            50 => Some(Keyboard::M),
            51 => Some(Keyboard::Comma),
            52 => Some(Keyboard::Dot),
            53 => Some(Keyboard::Slash),
            54 => Some(Keyboard::RightShift),
            55 => Some(Keyboard::KpAsterisk),
            56 => Some(Keyboard::LeftAlt),
            57 => Some(Keyboard::Space),
            58 => Some(Keyboard::CapsLock),
            59 => Some(Keyboard::F1),
            60 => Some(Keyboard::F2),
            61 => Some(Keyboard::F3),
            62 => Some(Keyboard::F4),
            63 => Some(Keyboard::F5),
            _ => None,
        }
    }

    #[verifier::opaque]
    pub open spec fn of_code_1(code: u16) -> Option<Keyboard> {
        match code {
            64 => Some(Keyboard::F6),
            65 => Some(Keyboard::F7),
            66 => Some(Keyboard::F8),
            67 => Some(Keyboard::F9),
            68 => Some(Keyboard::F10),
            69 => Some(Keyboard::NumLock),
            70 => Some(Keyboard::ScrollLock),
            71 => Some(Keyboard::Kp7),
            72 => Some(Keyboard::Kp8),
            73 => Some(Keyboard::Kp9),
            74 => Some(Keyboard::KpMinus),
            75 => Some(Keyboard::Kp4),
            76 => Some(Keyboard::Kp5),
            77 => Some(Keyboard::Kp6),
            78 => Some(Keyboard::KpPlus),
            79 => Some(Keyboard::Kp1),
            80 => Some(Keyboard::Kp2),
            81 => Some(Keyboard::Kp3),
            82 => Some(Keyboard::Kp0),
            83 => Some(Keyboard::KpDot),
            85 => Some(Keyboard::ZenkakuHankaku),
            86 => Some(Keyboard::NonUsBackslash),
            87 => Some(Keyboard::F11),
            88 => Some(Keyboard::F12),
            89 => Some(Keyboard::Ro),
            90 => Some(Keyboard::Katakana),
            91 => Some(Keyboard::Hiragana),
            92 => Some(Keyboard::Henkan),
            93 => Some(Keyboard::KatakanaHiragana),
            94 => Some(Keyboard::Muhenkan),
            95 => Some(Keyboard::KpJpComma),
            96 => Some(Keyboard::KpEnter),
            97 => Some(Keyboard::RightCtrl),
            98 => Some(Keyboard::KpSlash),
            99 => Some(Keyboard::SysRq),
            100 => Some(Keyboard::RightAlt),
            101 => Some(Keyboard::LineFeed),
            102 => Some(Keyboard::Home),
            103 => Some(Keyboard::Up),
            104 => Some(Keyboard::PageUp),
            105 => Some(Keyboard::Left),
            106 => Some(Keyboard::Right),
            107 => Some(Keyboard::End),
            108 => Some(Keyboard::Down),
            109 => Some(Keyboard::PageDown),
            110 => Some(Keyboard::Insert),
            111 => Some(Keyboard::Delete),
            112 => Some(Keyboard::Macro),
            113 => Some(Keyboard::Mute),
            114 => Some(Keyboard::VolumeDown),
            115 => Some(Keyboard::VolumeUp),
            116 => Some(Keyboard::Power),
            117 => Some(Keyboard::KpEqual),
            118 => Some(Keyboard::KpPlusMinus),
            119 => Some(Keyboard::Pause),
            120 => Some(Keyboard::Scale),
            121 => Some(Keyboard::KpComma),
            122 => Some(Keyboard::Hangeul),
            123 => Some(Keyboard::Hanja),
            124 => Some(Keyboard::Yen),
            125 => Some(Keyboard::LeftMeta),
            126 => Some(Keyboard::RightMeta),
            127 => Some(Keyboard::Compose),
            _ => None,
        }
    }

    #[verifier::opaque]
    pub open spec fn of_code_2(code: u16) -> Option<Keyboard> {
        match code {
            128 => Some(Keyboard::Stop),
            129 => Some(Keyboard::Again),
            130 => Some(Keyboard::Props),
            131 => Some(Keyboard::Undo),
            132 => Some(Keyboard::Front),
            133 => Some(Keyboard::Copy),
            134 => Some(Keyboard::Open),
            135 => Some(Keyboard::Paste),
            136 => Some(Keyboard::Find),
            137 => Some(Keyboard::Cut),
            138 => Some(Keyboard::Help),
            139 => Some(Keyboard::Menu),
            140 => Some(Keyboard::Calc),
            141 => Some(Keyboard::Setup),
            142 => Some(Keyboard::Sleep),
            143 => Some(Keyboard::WakeUp),
            144 => Some(Keyboard::File),
            145 => Some(Keyboard::SendFile),
            146 => Some(Keyboard::DeleteFile),
            147 => Some(Keyboard::Xfer),
            148 => Some(Keyboard::Prog1),
            149 => Some(Keyboard::Prog2),
            150 => Some(Keyboard::Www),
            151 => Some(Keyboard::MsDos),
            152 => Some(Keyboard::Coffee),
            153 => Some(Keyboard::RotateDisplay),
            154 => Some(Keyboard::CycleWindows),
            155 => Some(Keyboard::Mail),
            156 => Some(Keyboard::Bookmarks),
            157 => Some(Keyboard::Computer),
            158 => Some(Keyboard::Back),
            159 => Some(Keyboard::Forward),
            160 => Some(Keyboard::CloseCd),
            161 => Some(Keyboard::EjectCd),
            162 => Some(Keyboard::EjectCloseCd),
            163 => Some(Keyboard::NextSong),
            164 => Some(Keyboard::PlayPause),
            165 => Some(Keyboard::PreviousSong),
            166 => Some(Keyboard::StopCd),
            167 => Some(Keyboard::Record),
            168 => Some(Keyboard::Rewind),
            169 => Some(Keyboard::Phone),
            170 => Some(Keyboard::Iso),
            171 => Some(Keyboard::Config),
            172 => Some(Keyboard::HomePage),
            173 => Some(Keyboard::Refresh),
            174 => Some(Keyboard::Exit),
            175 => Some(Keyboard::Move),
            176 => Some(Keyboard::Edit),
            177 => Some(Keyboard::ScrollUp),
            178 => Some(Keyboard::ScrollDown),
            179 => Some(Keyboard::KpLeftParen),
            180 => Some(Keyboard::KpRightParen),
            181 => Some(Keyboard::New),
            182 => Some(Keyboard::Redo),
            183 => Some(Keyboard::F13),
            184 => Some(Keyboard::F14),
            185 => Some(Keyboard::F15),
            186 => Some(Keyboard::F16),
            187 => Some(Keyboard::F17),
            188 => Some(Keyboard::F18),
            189 => Some(Keyboard::F19),
            190 => Some(Keyboard::F20),
            191 => Some(Keyboard::F21),
            _ => None,
        }
    }

    #[verifier::opaque]
    pub open spec fn of_code_3(code: u16) -> Option<Keyboard> {
        match code {
            192 => Some(Keyboard::F22),
            193 => Some(Keyboard::F23),
            194 => Some(Keyboard::F24),
            200 => Some(Keyboard::PlayCd),
            201 => Some(Keyboard::PauseCd),
            202 => Some(Keyboard::Prog3),
            203 => Some(Keyboard::Prog4),
            204 => Some(Keyboard::AllApplications),
            205 => Some(Keyboard::Suspend),
            206 => Some(Keyboard::Close),
            207 => Some(Keyboard::Play),
            208 => Some(Keyboard::FastForward),
            209 => Some(Keyboard::BassBoost),
            210 => Some(Keyboard::Print),
            211 => Some(Keyboard::Hp),
            212 => Some(Keyboard::Camera),
            213 => Some(Keyboard::Sound),
            214 => Some(Keyboard::Question),
            215 => Some(Keyboard::Email),
            216 => Some(Keyboard::Chat),
            217 => Some(Keyboard::Search),
            218 => Some(Keyboard::Connect),
            219 => Some(Keyboard::Finance),
            220 => Some(Keyboard::Sport),
            221 => Some(Keyboard::Shop),
            222 => Some(Keyboard::AltErase),
            223 => Some(Keyboard::Cancel),
            224 => Some(Keyboard::BrightnessDown),
            225 => Some(Keyboard::BrightnessUp),
            226 => Some(Keyboard::Media),
            227 => Some(Keyboard::SwitchVideoMode),
            228 => Some(Keyboard::KbdIllumToggle),
            229 => Some(Keyboard::KbdIllumDown),
            230 => Some(Keyboard::KbdIllumUp),
            231 => Some(Keyboard::Send),
            232 => Some(Keyboard::Reply),
            233 => Some(Keyboard::ForwardMail),
            234 => Some(Keyboard::Save),
            235 => Some(Keyboard::Documents),
            236 => Some(Keyboard::Battery),
            237 => Some(Keyboard::Bluetooth),
            238 => Some(Keyboard::Wlan),
            239 => Some(Keyboard::Uwb),
            240 => Some(Keyboard::Unknown),
            241 => Some(Keyboard::VideoNext),
            242 => Some(Keyboard::VideoPrev),
            243 => Some(Keyboard::BrightnessCycle),
            244 => Some(Keyboard::BrightnessAuto),
            245 => Some(Keyboard::DisplayOff),
            246 => Some(Keyboard::Wwan),
            247 => Some(Keyboard::Rfkill),
            248 => Some(Keyboard::MicMute),
            _ => None,
        }
    }

    #[verifier::opaque]
    pub open spec fn of_code_5(code: u16) -> Option<Keyboard> {
        match code {
            352 => Some(Keyboard::OkKey),
            353 => Some(Keyboard::Select),
            354 => Some(Keyboard::Goto),
            355 => Some(Keyboard::Clear),
            356 => Some(Keyboard::Power2),
            357 => Some(Keyboard::OptionKey),
            358 => Some(Keyboard::Info),
            359 => Some(Keyboard::Time),
            360 => Some(Keyboard::Vendor),
            361 => Some(Keyboard::Archive),
            362 => Some(Keyboard::Program),
            363 => Some(Keyboard::Channel),
            364 => Some(Keyboard::Favorites),
            365 => Some(Keyboard::Epg),
            366 => Some(Keyboard::Pvr),
            367 => Some(Keyboard::Mhp),
            368 => Some(Keyboard::Language),
            369 => Some(Keyboard::Title),
            370 => Some(Keyboard::Subtitle),
            371 => Some(Keyboard::Angle),
            372 => Some(Keyboard::FullScreen),
            373 => Some(Keyboard::Mode),
            374 => Some(Keyboard::Keyboard),
            375 => Some(Keyboard::AspectRatio),
            376 => Some(Keyboard::Pc),
            377 => Some(Keyboard::Tv),
            378 => Some(Keyboard::Tv2),
            379 => Some(Keyboard::Vcr),
            380 => Some(Keyboard::Vcr2),
            381 => Some(Keyboard::Sat),
            382 => Some(Keyboard::Sat2),
            383 => Some(Keyboard::Cd),
            _ => None,
        }
    }

    #[verifier::opaque]
    pub open spec fn of_code_6(code: u16) -> Option<Keyboard> {
        match code {
            384 => Some(Keyboard::Tape),
            385 => Some(Keyboard::Radio),
            386 => Some(Keyboard::Tuner),
            387 => Some(Keyboard::Player),
            388 => Some(Keyboard::Text),
            389 => Some(Keyboard::Dvd),
            390 => Some(Keyboard::Aux),
            391 => Some(Keyboard::Mp3),
            392 => Some(Keyboard::Audio),
            393 => Some(Keyboard::Video),
            394 => Some(Keyboard::Directory),
            395 => Some(Keyboard::List),
            396 => Some(Keyboard::Memo),
            397 => Some(Keyboard::Calendar),
            398 => Some(Keyboard::Red),
            399 => Some(Keyboard::Green),
            400 => Some(Keyboard::Yellow),
            401 => Some(Keyboard::Blue),
            402 => Some(Keyboard::ChannelUp),
            403 => Some(Keyboard::ChannelDown),
            404 => Some(Keyboard::First),
            405 => Some(Keyboard::Last),
            406 => Some(Keyboard::Ab),
            407 => Some(Keyboard::Next),
            408 => Some(Keyboard::Restart),
            409 => Some(Keyboard::Slow),
            410 => Some(Keyboard::Shuffle),
            411 => Some(Keyboard::Break),
            412 => Some(Keyboard::Previous),
            413 => Some(Keyboard::Digits),
            414 => Some(Keyboard::Teen),
            415 => Some(Keyboard::Twen),
            416 => Some(Keyboard::VideoPhone),
            417 => Some(Keyboard::Games),
            418 => Some(Keyboard::ZoomIn),
            419 => Some(Keyboard::ZoomOut),
            420 => Some(Keyboard::ZoomReset),
            421 => Some(Keyboard::WordProcessor),
            422 => Some(Keyboard::Editor),
            423 => Some(Keyboard::Spreadsheet),
            424 => Some(Keyboard::GraphicsEditor),
            425 => Some(Keyboard::Presentation),
            426 => Some(Keyboard::Database),
            427 => Some(Keyboard::News),
            428 => Some(Keyboard::VoiceMail),
            429 => Some(Keyboard::AddressBook),
            430 => Some(Keyboard::Messenger),
            431 => Some(Keyboard::DisplayToggle),
            432 => Some(Keyboard::SpellCheck),
            433 => Some(Keyboard::LogOff),
            434 => Some(Keyboard::Dollar),
            435 => Some(Keyboard::Euro),
            436 => Some(Keyboard::FrameBack),
            437 => Some(Keyboard::FrameForward),
            438 => Some(Keyboard::ContextMenu),
            439 => Some(Keyboard::MediaRepeat),
            440 => Some(Keyboard::TenChannelsUp),
            441 => Some(Keyboard::TenChannelsDown),
            442 => Some(Keyboard::Images),
            444 => Some(Keyboard::NotificationCenter),
            445 => Some(Keyboard::PickupPhone),
            446 => Some(Keyboard::HangupPhone),
            447 => Some(Keyboard::LinkPhone),
            _ => None,
        }
    }

    #[verifier::opaque]
    pub open spec fn of_code_7(code: u16) -> Option<Keyboard> {
        match code {
            448 => Some(Keyboard::DelEol),
            449 => Some(Keyboard::DelEos),
            450 => Some(Keyboard::InsLine),
            451 => Some(Keyboard::DelLine),
            464 => Some(Keyboard::Fn),
            465 => Some(Keyboard::FnEsc),
            466 => Some(Keyboard::FnF1),
            467 => Some(Keyboard::FnF2),
            468 => Some(Keyboard::FnF3),
            469 => Some(Keyboard::FnF4),
            470 => Some(Keyboard::FnF5),
            471 => Some(Keyboard::FnF6),
            472 => Some(Keyboard::FnF7),
            473 => Some(Keyboard::FnF8),
            474 => Some(Keyboard::FnF9),
            475 => Some(Keyboard::FnF10),
            476 => Some(Keyboard::FnF11),
            477 => Some(Keyboard::FnF12),
            478 => Some(Keyboard::Fn1),
            479 => Some(Keyboard::Fn2),
            480 => Some(Keyboard::FnD),
            481 => Some(Keyboard::FnE),
            482 => Some(Keyboard::FnF),
            483 => Some(Keyboard::FnS),
            484 => Some(Keyboard::FnB),
            485 => Some(Keyboard::FnRightShift),
            497 => Some(Keyboard::BrlDot1),
            498 => Some(Keyboard::BrlDot2),
            499 => Some(Keyboard::BrlDot3),
            500 => Some(Keyboard::BrlDot4),
            501 => Some(Keyboard::BrlDot5),
            502 => Some(Keyboard::BrlDot6),
            503 => Some(Keyboard::BrlDot7),
            504 => Some(Keyboard::BrlDot8),
            505 => Some(Keyboard::BrlDot9),
            506 => Some(Keyboard::BrlDot10),
            _ => None,
        }
    }

    #[verifier::opaque]
    pub open spec fn of_code_8(code: u16) -> Option<Keyboard> {
        match code {
            512 => Some(Keyboard::Numeric0),
            513 => Some(Keyboard::Numeric1),
            514 => Some(Keyboard::Numeric2),
            515 => Some(Keyboard::Numeric3),
            516 => Some(Keyboard::Numeric4),
            517 => Some(Keyboard::Numeric5),
            518 => Some(Keyboard::Numeric6),
            519 => Some(Keyboard::Numeric7),
            520 => Some(Keyboard::Numeric8),
            521 => Some(Keyboard::Numeric9),
            522 => Some(Keyboard::NumericStar),
            523 => Some(Keyboard::NumericPound),
            524 => Some(Keyboard::NumericA),
            525 => Some(Keyboard::NumericB),
            526 => Some(Keyboard::NumericC),
            527 => Some(Keyboard::NumericD),
            528 => Some(Keyboard::CameraFocus),
            529 => Some(Keyboard::WpsButton),
            530 => Some(Keyboard::TouchpadToggle),
            531 => Some(Keyboard::TouchpadOn),
            532 => Some(Keyboard::TouchpadOff),
            533 => Some(Keyboard::CameraZoomIn),
            534 => Some(Keyboard::CameraZoomOut),
            535 => Some(Keyboard::CameraUp),
            536 => Some(Keyboard::CameraDown),
            537 => Some(Keyboard::CameraLeft),
            538 => Some(Keyboard::CameraRight),
            539 => Some(Keyboard::AttendantOn),
            540 => Some(Keyboard::AttendantOff),
            541 => Some(Keyboard::AttendantToggle),
            542 => Some(Keyboard::LightsToggle),
            560 => Some(Keyboard::AlsToggle),
            561 => Some(Keyboard::RotateLockToggle),
            562 => Some(Keyboard::RefreshRateToggle),
            _ => None,
        }
    }

    #[verifier::opaque]
    pub open spec fn of_code_9(code: u16) -> Option<Keyboard> {
        match code {
            576 => Some(Keyboard::ButtonConfig),
            577 => Some(Keyboard::TaskManager),
            578 => Some(Keyboard::Journal),
            579 => Some(Keyboard::ControlPanel),
            580 => Some(Keyboard::AppSelect),
            581 => Some(Keyboard::ScreenSaver),
            582 => Some(Keyboard::VoiceCommand),
            583 => Some(Keyboard::Assistant),
            584 => Some(Keyboard::KbdLayoutNext),
            585 => Some(Keyboard::EmojiPicker),
            586 => Some(Keyboard::Dictate),
            592 => Some(Keyboard::BrightnessMin),
            593 => Some(Keyboard::BrightnessMax),
            608 => Some(Keyboard::KbdInputAssistPrev),
            609 => Some(Keyboard::KbdInputAssistNext),
            610 => Some(Keyboard::KbdInputAssistPrevGroup),
            611 => Some(Keyboard::KbdInputAssistNextGroup),
            612 => Some(Keyboard::KbdInputAssistAccept),
            613 => Some(Keyboard::KbdInputAssistCancel),
            614 => Some(Keyboard::RightUp),
            615 => Some(Keyboard::RightDown),
            616 => Some(Keyboard::LeftUp),
            617 => Some(Keyboard::LeftDown),
            618 => Some(Keyboard::RootMenu),
            619 => Some(Keyboard::MediaTopMenu),
            620 => Some(Keyboard::Numeric11),
            621 => Some(Keyboard::Numeric12),
            622 => Some(Keyboard::AudioDesc),
            623 => Some(Keyboard::ThreeDMode),
            624 => Some(Keyboard::NextFavorite),
            625 => Some(Keyboard::StopRecord),
            626 => Some(Keyboard::PauseRecord),
            627 => Some(Keyboard::Vod),
            628 => Some(Keyboard::Unmute),
            629 => Some(Keyboard::FastReverse),
            630 => Some(Keyboard::SlowReverse),
            631 => Some(Keyboard::Data),
            632 => Some(Keyboard::OnScreenKeyboard),
            633 => Some(Keyboard::PrivacyScreenToggle),
            634 => Some(Keyboard::SelectiveScreenshot),
            635 => Some(Keyboard::NextElement),
            636 => Some(Keyboard::PreviousElement),
            637 => Some(Keyboard::AutopilotEngageToggle),
            638 => Some(Keyboard::MarkWaypoint),
            639 => Some(Keyboard::Sos),
            _ => None,
        }
    }

    #[verifier::opaque]
    pub open spec fn of_code_10(code: u16) -> Option<Keyboard> {
        match code {
            640 => Some(Keyboard::NavChart),
            641 => Some(Keyboard::FishingChart),
            642 => Some(Keyboard::SingleRangeRadar),
            643 => Some(Keyboard::DualRangeRadar),
            644 => Some(Keyboard::RadarOverlay),
            645 => Some(Keyboard::TraditionalSonar),
            646 => Some(Keyboard::ClearvuSonar),
            647 => Some(Keyboard::SidevuSonar),
            648 => Some(Keyboard::NavInfo),
            649 => Some(Keyboard::BrightnessMenu),
            656 => Some(Keyboard::Macro1),
            657 => Some(Keyboard::Macro2),
            658 => Some(Keyboard::Macro3),
            659 => Some(Keyboard::Macro4),
            660 => Some(Keyboard::Macro5),
            661 => Some(Keyboard::Macro6),
            662 => Some(Keyboard::Macro7),
            663 => Some(Keyboard::Macro8),
            664 => Some(Keyboard::Macro9),
            665 => Some(Keyboard::Macro10),
            666 => Some(Keyboard::Macro11),
            667 => Some(Keyboard::Macro12),
            668 => Some(Keyboard::Macro13),
            669 => Some(Keyboard::Macro14),
            670 => Some(Keyboard::Macro15),
            671 => Some(Keyboard::Macro16),
            672 => Some(Keyboard::Macro17),
            673 => Some(Keyboard::Macro18),
            674 => Some(Keyboard::Macro19),
            675 => Some(Keyboard::Macro20),
            676 => Some(Keyboard::Macro21),
            677 => Some(Keyboard::Macro22),
            678 => Some(Keyboard::Macro23),
            679 => Some(Keyboard::Macro24),
            680 => Some(Keyboard::Macro25),
            681 => Some(Keyboard::Macro26),
            682 => Some(Keyboard::Macro27),
            683 => Some(Keyboard::Macro28),
            684 => Some(Keyboard::Macro29),
            685 => Some(Keyboard::Macro30),
            688 => Some(Keyboard::MacroRecordStart),
            689 => Some(Keyboard::MacroRecordStop),
            690 => Some(Keyboard::MacroPresetCycle),
            691 => Some(Keyboard::MacroPreset1),
            692 => Some(Keyboard::MacroPreset2),
            693 => Some(Keyboard::MacroPreset3),
            696 => Some(Keyboard::KbdLcdMenu1),
            697 => Some(Keyboard::KbdLcdMenu2),
            698 => Some(Keyboard::KbdLcdMenu3),
            699 => Some(Keyboard::KbdLcdMenu4),
            700 => Some(Keyboard::KbdLcdMenu5),
            _ => None,
        }
    }

    pub fn from_raw(code: u16) -> (found: Option<Keyboard>)
        ensures
            found == Keyboard::of_code(code),
    {
        if code < 64 {
            Keyboard::from_raw_0(code)
        } else if code < 128 {
            Keyboard::from_raw_1(code)
        } else if code < 192 {
            Keyboard::from_raw_2(code)
        } else if code < 256 {
            Keyboard::from_raw_3(code)
        } else if code < 384 {
            Keyboard::from_raw_5(code)
        } else if code < 448 {
            Keyboard::from_raw_6(code)
        } else if code < 512 {
            Keyboard::from_raw_7(code)
        } else if code < 576 {
            Keyboard::from_raw_8(code)
        } else if code < 640 {
            Keyboard::from_raw_9(code)
        } else {
            Keyboard::from_raw_10(code)
        }
    }

    fn from_raw_0(code: u16) -> (found: Option<Keyboard>)
        ensures
            found == Keyboard::of_code_0(code),
    {
        proof {
            reveal(Keyboard::of_code_0);
        }
        match code {
            0 => Some(Keyboard::Reserved),
            1 => Some(Keyboard::Esc),
            2 => Some(Keyboard::Num1),
            3 => Some(Keyboard::Num2),
            4 => Some(Keyboard::Num3),
            5 => Some(Keyboard::Num4),
            6 => Some(Keyboard::Num5),
            7 => Some(Keyboard::Num6),
            8 => Some(Keyboard::Num7),
            9 => Some(Keyboard::Num8),
            10 => Some(Keyboard::Num9),
            11 => Some(Keyboard::Num0),
            12 => Some(Keyboard::Minus),
            13 => Some(Keyboard::Equal),
            14 => Some(Keyboard::Backspace),
            15 => Some(Keyboard::Tab),
            16 => Some(Keyboard::Q),
            17 => Some(Keyboard::W),
            18 => Some(Keyboard::E),
            19 => Some(Keyboard::R),
            20 => Some(Keyboard::T),
            21 => Some(Keyboard::Y),
            22 => Some(Keyboard::U),
            23 => Some(Keyboard::I),
            24 => Some(Keyboard::O),
            25 => Some(Keyboard::P),
            26 => Some(Keyboard::LeftBrace),
            27 => Some(Keyboard::RightBrace),
            28 => Some(Keyboard::Enter),
            29 => Some(Keyboard::LeftCtrl),
            30 => Some(Keyboard::A),
            31 => Some(Keyboard::S),
            32 => Some(Keyboard::D),
            33 => Some(Keyboard::F),
            34 => Some(Keyboard::G),
            35 => Some(Keyboard::H),
            36 => Some(Keyboard::J),
            37 => Some(Keyboard::K),
            38 => Some(Keyboard::L),
            39 => Some(Keyboard::Semicolon),
            40 => Some(Keyboard::Apostrophe),
            41 => Some(Keyboard::Grave),
            42 => Some(Keyboard::LeftShift),
            43 => Some(Keyboard::Backslash),
            44 => Some(Keyboard::Z),
            45 => Some(Keyboard::X),
            46 => Some(Keyboard::C),
            47 => Some(Keyboard::V),
            48 => Some(Keyboard::B),
            49 => Some(Keyboard::N),
            50 => Some(Keyboard::M),
            51 => Some(Keyboard::Comma),
            52 => Some(Keyboard::Dot),
            53 => Some(Keyboard::Slash),
            54 => Some(Keyboard::RightShift),
            55 => Some(Keyboard::KpAsterisk),
            56 => Some(Keyboard::LeftAlt),
            57 => Some(Keyboard::Space),
            58 => Some(Keyboard::CapsLock),
            59 => Some(Keyboard::F1),
            60 => Some(Keyboard::F2),
            61 => Some(Keyboard::F3),
            62 => Some(Keyboard::F4),
            63 => Some(Keyboard::F5),
            _ => None,
        }
    }

    fn from_raw_1(code: u16) -> (found: Option<Keyboard>)
        ensures
            found == Keyboard::of_code_1(code),
    {
        proof {
            reveal(Keyboard::of_code_1);
        }
        match code {
            64 => Some(Keyboard::F6),
            65 => Some(Keyboard::F7),
            66 => Some(Keyboard::F8),
            67 => Some(Keyboard::F9),
            68 => Some(Keyboard::F10),
            69 => Some(Keyboard::NumLock),
            70 => Some(Keyboard::ScrollLock),
            71 => Some(Keyboard::Kp7),
            72 => Some(Keyboard::Kp8),
            73 => Some(Keyboard::Kp9),
            74 => Some(Keyboard::KpMinus),
            75 => Some(Keyboard::Kp4),
            76 => Some(Keyboard::Kp5),
            77 => Some(Keyboard::Kp6),
            78 => Some(Keyboard::KpPlus),
            79 => Some(Keyboard::Kp1),
            80 => Some(Keyboard::Kp2),
            81 => Some(Keyboard::Kp3),
            82 => Some(Keyboard::Kp0),
            83 => Some(Keyboard::KpDot),
            85 => Some(Keyboard::ZenkakuHankaku),
            86 => Some(Keyboard::NonUsBackslash),
            87 => Some(Keyboard::F11),
            88 => Some(Keyboard::F12),
            89 => Some(Keyboard::Ro),
            90 => Some(Keyboard::Katakana),
            91 => Some(Keyboard::Hiragana),
            92 => Some(Keyboard::Henkan),
            93 => Some(Keyboard::KatakanaHiragana),
            94 => Some(Keyboard::Muhenkan),
            95 => Some(Keyboard::KpJpComma),
            96 => Some(Keyboard::KpEnter),
            97 => Some(Keyboard::RightCtrl),
            98 => Some(Keyboard::KpSlash),
            99 => Some(Keyboard::SysRq),
            100 => Some(Keyboard::RightAlt),
            101 => Some(Keyboard::LineFeed),
            102 => Some(Keyboard::Home),
            103 => Some(Keyboard::Up),
            104 => Some(Keyboard::PageUp),
            105 => Some(Keyboard::Left),
            106 => Some(Keyboard::Right),
            107 => Some(Keyboard::End),
            108 => Some(Keyboard::Down),
            109 => Some(Keyboard::PageDown),
            110 => Some(Keyboard::Insert),
            111 => Some(Keyboard::Delete),
            112 => Some(Keyboard::Macro),
            113 => Some(Keyboard::Mute),
            114 => Some(Keyboard::VolumeDown),
            115 => Some(Keyboard::VolumeUp),
            116 => Some(Keyboard::Power),
            117 => Some(Keyboard::KpEqual),
            118 => Some(Keyboard::KpPlusMinus),
            119 => Some(Keyboard::Pause),
            120 => Some(Keyboard::Scale),
            121 => Some(Keyboard::KpComma),
            122 => Some(Keyboard::Hangeul),
            123 => Some(Keyboard::Hanja),
            124 => Some(Keyboard::Yen),
            125 => Some(Keyboard::LeftMeta),
            126 => Some(Keyboard::RightMeta),
            127 => Some(Keyboard::Compose),
            _ => None,
        }
    }

    fn from_raw_2(code: u16) -> (found: Option<Keyboard>)
        ensures
            found == Keyboard::of_code_2(code),
    {
        proof {
            reveal(Keyboard::of_code_2);
        }
        match code {
            128 => Some(Keyboard::Stop),
            129 => Some(Keyboard::Again),
            130 => Some(Keyboard::Props),
            131 => Some(Keyboard::Undo),
            132 => Some(Keyboard::Front),
            133 => Some(Keyboard::Copy),
            134 => Some(Keyboard::Open),
            135 => Some(Keyboard::Paste),
            136 => Some(Keyboard::Find),
            137 => Some(Keyboard::Cut),
            138 => Some(Keyboard::Help),
            139 => Some(Keyboard::Menu),
            140 => Some(Keyboard::Calc),
            141 => Some(Keyboard::Setup),
            142 => Some(Keyboard::Sleep),
            143 => Some(Keyboard::WakeUp),
            144 => Some(Keyboard::File),
            145 => Some(Keyboard::SendFile),
            146 => Some(Keyboard::DeleteFile),
            147 => Some(Keyboard::Xfer),
            148 => Some(Keyboard::Prog1),
            149 => Some(Keyboard::Prog2),
            150 => Some(Keyboard::Www),
            151 => Some(Keyboard::MsDos),
            152 => Some(Keyboard::Coffee),
            153 => Some(Keyboard::RotateDisplay),
            154 => Some(Keyboard::CycleWindows),
            155 => Some(Keyboard::Mail),
            156 => Some(Keyboard::Bookmarks),
            157 => Some(Keyboard::Computer),
            158 => Some(Keyboard::Back),
            159 => Some(Keyboard::Forward),
            160 => Some(Keyboard::CloseCd),
            161 => Some(Keyboard::EjectCd),
            162 => Some(Keyboard::EjectCloseCd),
            163 => Some(Keyboard::NextSong),
            164 => Some(Keyboard::PlayPause),
            165 => Some(Keyboard::PreviousSong),
            166 => Some(Keyboard::StopCd),
            167 => Some(Keyboard::Record),
            168 => Some(Keyboard::Rewind),
            169 => Some(Keyboard::Phone),
            170 => Some(Keyboard::Iso),
            171 => Some(Keyboard::Config),
            172 => Some(Keyboard::HomePage),
            173 => Some(Keyboard::Refresh),
            174 => Some(Keyboard::Exit),
            175 => Some(Keyboard::Move),
            176 => Some(Keyboard::Edit),
            177 => Some(Keyboard::ScrollUp),
            178 => Some(Keyboard::ScrollDown),
            179 => Some(Keyboard::KpLeftParen),
            180 => Some(Keyboard::KpRightParen),
            181 => Some(Keyboard::New),
            182 => Some(Keyboard::Redo),
            183 => Some(Keyboard::F13),
            184 => Some(Keyboard::F14),
            185 => Some(Keyboard::F15),
            186 => Some(Keyboard::F16),
            187 => Some(Keyboard::F17),
            188 => Some(Keyboard::F18),
            189 => Some(Keyboard::F19),
            190 => Some(Keyboard::F20),
            191 => Some(Keyboard::F21),
            _ => None,
        }
    }

    fn from_raw_3(code: u16) -> (found: Option<Keyboard>)
        ensures
            found == Keyboard::of_code_3(code),
    {
        proof {
            reveal(Keyboard::of_code_3);
        }
        match code {
            192 => Some(Keyboard::F22),
            193 => Some(Keyboard::F23),
            194 => Some(Keyboard::F24),
            200 => Some(Keyboard::PlayCd),
            201 => Some(Keyboard::PauseCd),
            202 => Some(Keyboard::Prog3),
            203 => Some(Keyboard::Prog4),
            204 => Some(Keyboard::AllApplications),
            205 => Some(Keyboard::Suspend),
            206 => Some(Keyboard::Close),
            207 => Some(Keyboard::Play),
            208 => Some(Keyboard::FastForward),
            209 => Some(Keyboard::BassBoost),
            210 => Some(Keyboard::Print),
            211 => Some(Keyboard::Hp),
            212 => Some(Keyboard::Camera),
            213 => Some(Keyboard::Sound),
            214 => Some(Keyboard::Question),
            215 => Some(Keyboard::Email),
            216 => Some(Keyboard::Chat),
            217 => Some(Keyboard::Search),
            218 => Some(Keyboard::Connect),
            219 => Some(Keyboard::Finance),
            220 => Some(Keyboard::Sport),
            221 => Some(Keyboard::Shop),
            222 => Some(Keyboard::AltErase),
            223 => Some(Keyboard::Cancel),
            224 => Some(Keyboard::BrightnessDown),
            225 => Some(Keyboard::BrightnessUp),
            226 => Some(Keyboard::Media),
            227 => Some(Keyboard::SwitchVideoMode),
            228 => Some(Keyboard::KbdIllumToggle),
            229 => Some(Keyboard::KbdIllumDown),
            230 => Some(Keyboard::KbdIllumUp),
            231 => Some(Keyboard::Send),
            232 => Some(Keyboard::Reply),
            233 => Some(Keyboard::ForwardMail),
            234 => Some(Keyboard::Save),
            235 => Some(Keyboard::Documents),
            236 => Some(Keyboard::Battery),
            237 => Some(Keyboard::Bluetooth),
            238 => Some(Keyboard::Wlan),
            239 => Some(Keyboard::Uwb),
            240 => Some(Keyboard::Unknown),
            241 => Some(Keyboard::VideoNext),
            242 => Some(Keyboard::VideoPrev),
            243 => Some(Keyboard::BrightnessCycle),
            244 => Some(Keyboard::BrightnessAuto),
            245 => Some(Keyboard::DisplayOff),
            246 => Some(Keyboard::Wwan),
            247 => Some(Keyboard::Rfkill),
            248 => Some(Keyboard::MicMute),
            _ => None,
        }
    }

    fn from_raw_5(code: u16) -> (found: Option<Keyboard>)
        ensures
            found == Keyboard::of_code_5(code),
    {
        proof {
            reveal(Keyboard::of_code_5);
        }
        match code {
            352 => Some(Keyboard::OkKey),
            353 => Some(Keyboard::Select),
            354 => Some(Keyboard::Goto),
            355 => Some(Keyboard::Clear),
            356 => Some(Keyboard::Power2),
            357 => Some(Keyboard::OptionKey),
            358 => Some(Keyboard::Info),
            359 => Some(Keyboard::Time),
            360 => Some(Keyboard::Vendor),
            361 => Some(Keyboard::Archive),
            362 => Some(Keyboard::Program),
            363 => Some(Keyboard::Channel),
            364 => Some(Keyboard::Favorites),
            365 => Some(Keyboard::Epg),
            366 => Some(Keyboard::Pvr),
            367 => Some(Keyboard::Mhp),
            368 => Some(Keyboard::Language),
            369 => Some(Keyboard::Title),
            370 => Some(Keyboard::Subtitle),
            371 => Some(Keyboard::Angle),
            372 => Some(Keyboard::FullScreen),
            373 => Some(Keyboard::Mode),
            374 => Some(Keyboard::Keyboard),
            375 => Some(Keyboard::AspectRatio),
            376 => Some(Keyboard::Pc),
            377 => Some(Keyboard::Tv),
            378 => Some(Keyboard::Tv2),
            379 => Some(Keyboard::Vcr),
            380 => Some(Keyboard::Vcr2),
            381 => Some(Keyboard::Sat),
            382 => Some(Keyboard::Sat2),
            383 => Some(Keyboard::Cd),
            _ => None,
        }
    }

    fn from_raw_6(code: u16) -> (found: Option<Keyboard>)
        ensures
            found == Keyboard::of_code_6(code),
    {
        proof {
            reveal(Keyboard::of_code_6);
        }
        match code {
            384 => Some(Keyboard::Tape),
            385 => Some(Keyboard::Radio),
            386 => Some(Keyboard::Tuner),
            387 => Some(Keyboard::Player),
            388 => Some(Keyboard::Text),
            389 => Some(Keyboard::Dvd),
            390 => Some(Keyboard::Aux),
            391 => Some(Keyboard::Mp3),
            392 => Some(Keyboard::Audio),
            393 => Some(Keyboard::Video),
            394 => Some(Keyboard::Directory),
            395 => Some(Keyboard::List),
            396 => Some(Keyboard::Memo),
            397 => Some(Keyboard::Calendar),
            398 => Some(Keyboard::Red),
            399 => Some(Keyboard::Green),
            400 => Some(Keyboard::Yellow),
            401 => Some(Keyboard::Blue),
            402 => Some(Keyboard::ChannelUp),
            403 => Some(Keyboard::ChannelDown),
            404 => Some(Keyboard::First),
            405 => Some(Keyboard::Last),
            406 => Some(Keyboard::Ab),
            407 => Some(Keyboard::Next),
            408 => Some(Keyboard::Restart),
            409 => Some(Keyboard::Slow),
            410 => Some(Keyboard::Shuffle),
            411 => Some(Keyboard::Break),
            412 => Some(Keyboard::Previous),
            413 => Some(Keyboard::Digits),
            414 => Some(Keyboard::Teen),
            415 => Some(Keyboard::Twen),
            416 => Some(Keyboard::VideoPhone),
            417 => Some(Keyboard::Games),
            418 => Some(Keyboard::ZoomIn),
            419 => Some(Keyboard::ZoomOut),
            420 => Some(Keyboard::ZoomReset),
            421 => Some(Keyboard::WordProcessor),
            422 => Some(Keyboard::Editor),
            423 => Some(Keyboard::Spreadsheet),
            424 => Some(Keyboard::GraphicsEditor),
            425 => Some(Keyboard::Presentation),
            426 => Some(Keyboard::Database),
            427 => Some(Keyboard::News),
            428 => Some(Keyboard::VoiceMail),
            429 => Some(Keyboard::AddressBook),
            430 => Some(Keyboard::Messenger),
            431 => Some(Keyboard::DisplayToggle),
            432 => Some(Keyboard::SpellCheck),
            433 => Some(Keyboard::LogOff),
            434 => Some(Keyboard::Dollar),
            435 => Some(Keyboard::Euro),
            436 => Some(Keyboard::FrameBack),
            437 => Some(Keyboard::FrameForward),
            438 => Some(Keyboard::ContextMenu),
            439 => Some(Keyboard::MediaRepeat),
            440 => Some(Keyboard::TenChannelsUp),
            441 => Some(Keyboard::TenChannelsDown),
            442 => Some(Keyboard::Images),
            444 => Some(Keyboard::NotificationCenter),
            445 => Some(Keyboard::PickupPhone),
            446 => Some(Keyboard::HangupPhone),
            447 => Some(Keyboard::LinkPhone),
            _ => None,
        }
    }

    fn from_raw_7(code: u16) -> (found: Option<Keyboard>)
        ensures
            found == Keyboard::of_code_7(code),
    {
        proof {
            reveal(Keyboard::of_code_7);
        }
        match code {
            448 => Some(Keyboard::DelEol),
            449 => Some(Keyboard::DelEos),
            450 => Some(Keyboard::InsLine),
            451 => Some(Keyboard::DelLine),
            464 => Some(Keyboard::Fn),
            465 => Some(Keyboard::FnEsc),
            466 => Some(Keyboard::FnF1),
            467 => Some(Keyboard::FnF2),
            468 => Some(Keyboard::FnF3),
            469 => Some(Keyboard::FnF4),
            470 => Some(Keyboard::FnF5),
            471 => Some(Keyboard::FnF6),
            472 => Some(Keyboard::FnF7),
            473 => Some(Keyboard::FnF8),
            474 => Some(Keyboard::FnF9),
            475 => Some(Keyboard::FnF10),
            476 => Some(Keyboard::FnF11),
            477 => Some(Keyboard::FnF12),
            478 => Some(Keyboard::Fn1),
            479 => Some(Keyboard::Fn2),
            480 => Some(Keyboard::FnD),
            481 => Some(Keyboard::FnE),
            482 => Some(Keyboard::FnF),
            483 => Some(Keyboard::FnS),
            484 => Some(Keyboard::FnB),
            485 => Some(Keyboard::FnRightShift),
            497 => Some(Keyboard::BrlDot1),
            498 => Some(Keyboard::BrlDot2),
            499 => Some(Keyboard::BrlDot3),
            500 => Some(Keyboard::BrlDot4),
            501 => Some(Keyboard::BrlDot5),
            502 => Some(Keyboard::BrlDot6),
            503 => Some(Keyboard::BrlDot7),
            504 => Some(Keyboard::BrlDot8),
            505 => Some(Keyboard::BrlDot9),
            506 => Some(Keyboard::BrlDot10),
            _ => None,
        }
    }

    fn from_raw_8(code: u16) -> (found: Option<Keyboard>)
        ensures
            found == Keyboard::of_code_8(code),
    {
        proof {
            reveal(Keyboard::of_code_8);
        }
        match code {
            512 => Some(Keyboard::Numeric0),
            513 => Some(Keyboard::Numeric1),
            514 => Some(Keyboard::Numeric2),
            515 => Some(Keyboard::Numeric3),
            516 => Some(Keyboard::Numeric4),
            517 => Some(Keyboard::Numeric5),
            518 => Some(Keyboard::Numeric6),
            519 => Some(Keyboard::Numeric7),
            520 => Some(Keyboard::Numeric8),
            521 => Some(Keyboard::Numeric9),
            522 => Some(Keyboard::NumericStar),
            523 => Some(Keyboard::NumericPound),
            524 => Some(Keyboard::NumericA),
            525 => Some(Keyboard::NumericB),
            526 => Some(Keyboard::NumericC),
            527 => Some(Keyboard::NumericD),
            528 => Some(Keyboard::CameraFocus),
            529 => Some(Keyboard::WpsButton),
            530 => Some(Keyboard::TouchpadToggle),
            531 => Some(Keyboard::TouchpadOn),
            532 => Some(Keyboard::TouchpadOff),
            533 => Some(Keyboard::CameraZoomIn),
            534 => Some(Keyboard::CameraZoomOut),
            535 => Some(Keyboard::CameraUp),
            536 => Some(Keyboard::CameraDown),
            537 => Some(Keyboard::CameraLeft),
            538 => Some(Keyboard::CameraRight),
            539 => Some(Keyboard::AttendantOn),
            540 => Some(Keyboard::AttendantOff),
            541 => Some(Keyboard::AttendantToggle),
            542 => Some(Keyboard::LightsToggle),
            560 => Some(Keyboard::AlsToggle),
            561 => Some(Keyboard::RotateLockToggle),
            562 => Some(Keyboard::RefreshRateToggle),
            _ => None,
        }
    }

    fn from_raw_9(code: u16) -> (found: Option<Keyboard>)
        ensures
            found == Keyboard::of_code_9(code),
    {
        proof {
            reveal(Keyboard::of_code_9);
        }
        match code {
            576 => Some(Keyboard::ButtonConfig),
            577 => Some(Keyboard::TaskManager),
            578 => Some(Keyboard::Journal),
            579 => Some(Keyboard::ControlPanel),
            580 => Some(Keyboard::AppSelect),
            581 => Some(Keyboard::ScreenSaver),
            582 => Some(Keyboard::VoiceCommand),
            583 => Some(Keyboard::Assistant),
            584 => Some(Keyboard::KbdLayoutNext),
            585 => Some(Keyboard::EmojiPicker),
            586 => Some(Keyboard::Dictate),
            592 => Some(Keyboard::BrightnessMin),
            593 => Some(Keyboard::BrightnessMax),
            608 => Some(Keyboard::KbdInputAssistPrev),
            609 => Some(Keyboard::KbdInputAssistNext),
            610 => Some(Keyboard::KbdInputAssistPrevGroup),
            611 => Some(Keyboard::KbdInputAssistNextGroup),
            612 => Some(Keyboard::KbdInputAssistAccept),
            613 => Some(Keyboard::KbdInputAssistCancel),
            614 => Some(Keyboard::RightUp),
            615 => Some(Keyboard::RightDown),
            616 => Some(Keyboard::LeftUp),
            617 => Some(Keyboard::LeftDown),
            618 => Some(Keyboard::RootMenu),
            619 => Some(Keyboard::MediaTopMenu),
            620 => Some(Keyboard::Numeric11),
            621 => Some(Keyboard::Numeric12),
            622 => Some(Keyboard::AudioDesc),
            623 => Some(Keyboard::ThreeDMode),
            624 => Some(Keyboard::NextFavorite),
            625 => Some(Keyboard::StopRecord),
            626 => Some(Keyboard::PauseRecord),
            627 => Some(Keyboard::Vod),
            628 => Some(Keyboard::Unmute),
            629 => Some(Keyboard::FastReverse),
            630 => Some(Keyboard::SlowReverse),
            631 => Some(Keyboard::Data),
            632 => Some(Keyboard::OnScreenKeyboard),
            633 => Some(Keyboard::PrivacyScreenToggle),
            634 => Some(Keyboard::SelectiveScreenshot),
            635 => Some(Keyboard::NextElement),
            636 => Some(Keyboard::PreviousElement),
            637 => Some(Keyboard::AutopilotEngageToggle),
            638 => Some(Keyboard::MarkWaypoint),
            639 => Some(Keyboard::Sos),
            _ => None,
        }
    }

    fn from_raw_10(code: u16) -> (found: Option<Keyboard>)
        ensures
            found == Keyboard::of_code_10(code),
    {
        proof {
            reveal(Keyboard::of_code_10);
        }
        match code {
            640 => Some(Keyboard::NavChart),
            641 => Some(Keyboard::FishingChart),
            642 => Some(Keyboard::SingleRangeRadar),
            643 => Some(Keyboard::DualRangeRadar),
            644 => Some(Keyboard::RadarOverlay),
            645 => Some(Keyboard::TraditionalSonar),
            646 => Some(Keyboard::ClearvuSonar),
            647 => Some(Keyboard::SidevuSonar),
            648 => Some(Keyboard::NavInfo),
            649 => Some(Keyboard::BrightnessMenu),
            656 => Some(Keyboard::Macro1),
            657 => Some(Keyboard::Macro2),
            658 => Some(Keyboard::Macro3),
            659 => Some(Keyboard::Macro4),
            660 => Some(Keyboard::Macro5),
            661 => Some(Keyboard::Macro6),
            662 => Some(Keyboard::Macro7),
            663 => Some(Keyboard::Macro8),
            664 => Some(Keyboard::Macro9),
            665 => Some(Keyboard::Macro10),
            666 => Some(Keyboard::Macro11),
            667 => Some(Keyboard::Macro12),
            668 => Some(Keyboard::Macro13),
            669 => Some(Keyboard::Macro14),
            670 => Some(Keyboard::Macro15),
            671 => Some(Keyboard::Macro16),
            672 => Some(Keyboard::Macro17),
            673 => Some(Keyboard::Macro18),
            674 => Some(Keyboard::Macro19),
            675 => Some(Keyboard::Macro20),
            676 => Some(Keyboard::Macro21),
            677 => Some(Keyboard::Macro22),
            678 => Some(Keyboard::Macro23),
            679 => Some(Keyboard::Macro24),
            680 => Some(Keyboard::Macro25),
            681 => Some(Keyboard::Macro26),
            682 => Some(Keyboard::Macro27),
            683 => Some(Keyboard::Macro28),
            684 => Some(Keyboard::Macro29),
            685 => Some(Keyboard::Macro30),
            688 => Some(Keyboard::MacroRecordStart),
            689 => Some(Keyboard::MacroRecordStop),
            690 => Some(Keyboard::MacroPresetCycle),
            691 => Some(Keyboard::MacroPreset1),
            692 => Some(Keyboard::MacroPreset2),
            693 => Some(Keyboard::MacroPreset3),
            696 => Some(Keyboard::KbdLcdMenu1),
            697 => Some(Keyboard::KbdLcdMenu2),
            698 => Some(Keyboard::KbdLcdMenu3),
            699 => Some(Keyboard::KbdLcdMenu4),
            700 => Some(Keyboard::KbdLcdMenu5),
            _ => None,
        }
    }

    pub fn to_raw(&self) -> (code: Option<u16>)
        ensures
            code == Some(self.code()),
    {
        proof {
            reveal(Keyboard::code);
        }
        Some(match self {
            Keyboard::Reserved => 0,
            Keyboard::Esc => 1,
            Keyboard::Num1 => 2,
            Keyboard::Num2 => 3,
            Keyboard::Num3 => 4,
            Keyboard::Num4 => 5,
            Keyboard::Num5 => 6,
            Keyboard::Num6 => 7,
            Keyboard::Num7 => 8,
            Keyboard::Num8 => 9,
            Keyboard::Num9 => 10,
            Keyboard::Num0 => 11,
            Keyboard::Minus => 12,
            Keyboard::Equal => 13,
            Keyboard::Backspace => 14,
            Keyboard::Tab => 15,
            Keyboard::Q => 16,
            Keyboard::W => 17,
            Keyboard::E => 18,
            Keyboard::R => 19,
            Keyboard::T => 20,
            Keyboard::Y => 21,
            Keyboard::U => 22,
            Keyboard::I => 23,
            Keyboard::O => 24,
            Keyboard::P => 25,
            Keyboard::LeftBrace => 26,
            Keyboard::RightBrace => 27,
            Keyboard::Enter => 28,
            Keyboard::LeftCtrl => 29,
            Keyboard::A => 30,
            Keyboard::S => 31,
            Keyboard::D => 32,
            Keyboard::F => 33,
            Keyboard::G => 34,
            Keyboard::H => 35,
            Keyboard::J => 36,
            Keyboard::K => 37,
            Keyboard::L => 38,
            Keyboard::Semicolon => 39,
            Keyboard::Apostrophe => 40,
            Keyboard::Grave => 41,
            Keyboard::LeftShift => 42,
            Keyboard::Backslash => 43,
            Keyboard::Z => 44,
            Keyboard::X => 45,
            Keyboard::C => 46,
            Keyboard::V => 47,
            Keyboard::B => 48,
            Keyboard::N => 49,
            Keyboard::M => 50,
            Keyboard::Comma => 51,
            Keyboard::Dot => 52,
            Keyboard::Slash => 53,
            Keyboard::RightShift => 54,
            Keyboard::KpAsterisk => 55,
            Keyboard::LeftAlt => 56,
            Keyboard::Space => 57,
            Keyboard::CapsLock => 58,
            Keyboard::F1 => 59,
            Keyboard::F2 => 60,
            Keyboard::F3 => 61,
            Keyboard::F4 => 62,
            Keyboard::F5 => 63,
            Keyboard::F6 => 64,
            Keyboard::F7 => 65,
            Keyboard::F8 => 66,
            Keyboard::F9 => 67,
            Keyboard::F10 => 68,
            Keyboard::NumLock => 69,
            Keyboard::ScrollLock => 70,
            Keyboard::Kp7 => 71,
            Keyboard::Kp8 => 72,
            Keyboard::Kp9 => 73,
            Keyboard::KpMinus => 74,
            Keyboard::Kp4 => 75,
            Keyboard::Kp5 => 76,
            Keyboard::Kp6 => 77,
            Keyboard::KpPlus => 78,
            Keyboard::Kp1 => 79,
            Keyboard::Kp2 => 80,
            Keyboard::Kp3 => 81,
            Keyboard::Kp0 => 82,
            Keyboard::KpDot => 83,
            Keyboard::ZenkakuHankaku => 85,
            Keyboard::NonUsBackslash => 86,
            Keyboard::F11 => 87,
            Keyboard::F12 => 88,
            Keyboard::Ro => 89,
            Keyboard::Katakana => 90,
            Keyboard::Hiragana => 91,
            Keyboard::Henkan => 92,
            Keyboard::KatakanaHiragana => 93,
            Keyboard::Muhenkan => 94,
            Keyboard::KpJpComma => 95,
            Keyboard::KpEnter => 96,
            Keyboard::RightCtrl => 97,
            Keyboard::KpSlash => 98,
            Keyboard::SysRq => 99,
            Keyboard::RightAlt => 100,
            Keyboard::LineFeed => 101,
            Keyboard::Home => 102,
            Keyboard::Up => 103,
            Keyboard::PageUp => 104,
            Keyboard::Left => 105,
            Keyboard::Right => 106,
            Keyboard::End => 107,
            Keyboard::Down => 108,
            Keyboard::PageDown => 109,
            Keyboard::Insert => 110,
            Keyboard::Delete => 111,
            Keyboard::Macro => 112,
            Keyboard::Mute => 113,
            Keyboard::VolumeDown => 114,
            Keyboard::VolumeUp => 115,
            Keyboard::Power => 116,
            Keyboard::KpEqual => 117,
            Keyboard::KpPlusMinus => 118,
            Keyboard::Pause => 119,
            Keyboard::Scale => 120,
            Keyboard::KpComma => 121,
            Keyboard::Hangeul => 122,
            Keyboard::Hanja => 123,
            Keyboard::Yen => 124,
            Keyboard::LeftMeta => 125,
            Keyboard::RightMeta => 126,
            Keyboard::Compose => 127,
            Keyboard::Stop => 128,
            Keyboard::Again => 129,
            Keyboard::Props => 130,
            Keyboard::Undo => 131,
            Keyboard::Front => 132,
            Keyboard::Copy => 133,
            Keyboard::Open => 134,
            Keyboard::Paste => 135,
            Keyboard::Find => 136,
            Keyboard::Cut => 137,
            Keyboard::Help => 138,
            Keyboard::Menu => 139,
            Keyboard::Calc => 140,
            Keyboard::Setup => 141,
            Keyboard::Sleep => 142,
            Keyboard::WakeUp => 143,
            Keyboard::File => 144,
            Keyboard::SendFile => 145,
            Keyboard::DeleteFile => 146,
            Keyboard::Xfer => 147,
            Keyboard::Prog1 => 148,
            Keyboard::Prog2 => 149,
            Keyboard::Www => 150,
            Keyboard::MsDos => 151,
            Keyboard::Coffee => 152,
            Keyboard::RotateDisplay => 153,
            Keyboard::CycleWindows => 154,
            Keyboard::Mail => 155,
            Keyboard::Bookmarks => 156,
            Keyboard::Computer => 157,
            Keyboard::Back => 158,
            Keyboard::Forward => 159,
            Keyboard::CloseCd => 160,
            Keyboard::EjectCd => 161,
            Keyboard::EjectCloseCd => 162,
            Keyboard::NextSong => 163,
            Keyboard::PlayPause => 164,
            Keyboard::PreviousSong => 165,
            Keyboard::StopCd => 166,
            Keyboard::Record => 167,
            Keyboard::Rewind => 168,
            Keyboard::Phone => 169,
            Keyboard::Iso => 170,
            Keyboard::Config => 171,
            Keyboard::HomePage => 172,
            Keyboard::Refresh => 173,
            Keyboard::Exit => 174,
            Keyboard::Move => 175,
            Keyboard::Edit => 176,
            Keyboard::ScrollUp => 177,
            Keyboard::ScrollDown => 178,
            Keyboard::KpLeftParen => 179,
            Keyboard::KpRightParen => 180,
            Keyboard::New => 181,
            Keyboard::Redo => 182,
            Keyboard::F13 => 183,
            Keyboard::F14 => 184,
            Keyboard::F15 => 185,
            Keyboard::F16 => 186,
            Keyboard::F17 => 187,
            Keyboard::F18 => 188,
            Keyboard::F19 => 189,
            Keyboard::F20 => 190,
            Keyboard::F21 => 191,
            Keyboard::F22 => 192,
            Keyboard::F23 => 193,
            Keyboard::F24 => 194,
            Keyboard::PlayCd => 200,
            Keyboard::PauseCd => 201,
            Keyboard::Prog3 => 202,
            Keyboard::Prog4 => 203,
            Keyboard::AllApplications => 204,
            Keyboard::Suspend => 205,
            Keyboard::Close => 206,
            Keyboard::Play => 207,
            Keyboard::FastForward => 208,
            Keyboard::BassBoost => 209,
            Keyboard::Print => 210,
            Keyboard::Hp => 211,
            Keyboard::Camera => 212,
            Keyboard::Sound => 213,
            Keyboard::Question => 214,
            Keyboard::Email => 215,
            Keyboard::Chat => 216,
            Keyboard::Search => 217,
            Keyboard::Connect => 218,
            Keyboard::Finance => 219,
            Keyboard::Sport => 220,
            Keyboard::Shop => 221,
            Keyboard::AltErase => 222,
            Keyboard::Cancel => 223,
            Keyboard::BrightnessDown => 224,
            Keyboard::BrightnessUp => 225,
            Keyboard::Media => 226,
            Keyboard::SwitchVideoMode => 227,
            Keyboard::KbdIllumToggle => 228,
            Keyboard::KbdIllumDown => 229,
            Keyboard::KbdIllumUp => 230,
            Keyboard::Send => 231,
            Keyboard::Reply => 232,
            Keyboard::ForwardMail => 233,
            Keyboard::Save => 234,
            Keyboard::Documents => 235,
            Keyboard::Battery => 236,
            Keyboard::Bluetooth => 237,
            Keyboard::Wlan => 238,
            Keyboard::Uwb => 239,
            Keyboard::Unknown => 240,
            Keyboard::VideoNext => 241,
            Keyboard::VideoPrev => 242,
            Keyboard::BrightnessCycle => 243,
            Keyboard::BrightnessAuto => 244,
            Keyboard::DisplayOff => 245,
            Keyboard::Wwan => 246,
            Keyboard::Rfkill => 247,
            Keyboard::MicMute => 248,
            Keyboard::OkKey => 352,
            Keyboard::Select => 353,
            Keyboard::Goto => 354,
            Keyboard::Clear => 355,
            Keyboard::Power2 => 356,
            Keyboard::OptionKey => 357,
            Keyboard::Info => 358,
            Keyboard::Time => 359,
            Keyboard::Vendor => 360,
            Keyboard::Archive => 361,
            Keyboard::Program => 362,
            Keyboard::Channel => 363,
            Keyboard::Favorites => 364,
            Keyboard::Epg => 365,
            Keyboard::Pvr => 366,
            Keyboard::Mhp => 367,
            Keyboard::Language => 368,
            Keyboard::Title => 369,
            Keyboard::Subtitle => 370,
            Keyboard::Angle => 371,
            Keyboard::FullScreen => 372,
            Keyboard::Mode => 373,
            Keyboard::Keyboard => 374,
            Keyboard::AspectRatio => 375,
            Keyboard::Pc => 376,
            Keyboard::Tv => 377,
            Keyboard::Tv2 => 378,
            Keyboard::Vcr => 379,
            Keyboard::Vcr2 => 380,
            Keyboard::Sat => 381,
            Keyboard::Sat2 => 382,
            Keyboard::Cd => 383,
            Keyboard::Tape => 384,
            Keyboard::Radio => 385,
            Keyboard::Tuner => 386,
            Keyboard::Player => 387,
            Keyboard::Text => 388,
            Keyboard::Dvd => 389,
            Keyboard::Aux => 390,
            Keyboard::Mp3 => 391,
            Keyboard::Audio => 392,
            Keyboard::Video => 393,
            Keyboard::Directory => 394,
            Keyboard::List => 395,
            Keyboard::Memo => 396,
            Keyboard::Calendar => 397,
            Keyboard::Red => 398,
            Keyboard::Green => 399,
            Keyboard::Yellow => 400,
            Keyboard::Blue => 401,
            Keyboard::ChannelUp => 402,
            Keyboard::ChannelDown => 403,
            Keyboard::First => 404,
            Keyboard::Last => 405,
            Keyboard::Ab => 406,
            Keyboard::Next => 407,
            Keyboard::Restart => 408,
            Keyboard::Slow => 409,
            Keyboard::Shuffle => 410,
            Keyboard::Break => 411,
            Keyboard::Previous => 412,
            Keyboard::Digits => 413,
            Keyboard::Teen => 414,
            Keyboard::Twen => 415,
            Keyboard::VideoPhone => 416,
            Keyboard::Games => 417,
            Keyboard::ZoomIn => 418,
            Keyboard::ZoomOut => 419,
            Keyboard::ZoomReset => 420,
            Keyboard::WordProcessor => 421,
            Keyboard::Editor => 422,
            Keyboard::Spreadsheet => 423,
            Keyboard::GraphicsEditor => 424,
            Keyboard::Presentation => 425,
            Keyboard::Database => 426,
            Keyboard::News => 427,
            Keyboard::VoiceMail => 428,
            Keyboard::AddressBook => 429,
            Keyboard::Messenger => 430,
            Keyboard::DisplayToggle => 431,
            Keyboard::SpellCheck => 432,
            Keyboard::LogOff => 433,
            Keyboard::Dollar => 434,
            Keyboard::Euro => 435,
            Keyboard::FrameBack => 436,
            Keyboard::FrameForward => 437,
            Keyboard::ContextMenu => 438,
            Keyboard::MediaRepeat => 439,
            Keyboard::TenChannelsUp => 440,
            Keyboard::TenChannelsDown => 441,
            Keyboard::Images => 442,
            Keyboard::NotificationCenter => 444,
            Keyboard::PickupPhone => 445,
            Keyboard::HangupPhone => 446,
            Keyboard::LinkPhone => 447,
            Keyboard::DelEol => 448,
            Keyboard::DelEos => 449,
            Keyboard::InsLine => 450,
            Keyboard::DelLine => 451,
            Keyboard::Fn => 464,
            Keyboard::FnEsc => 465,
            Keyboard::FnF1 => 466,
            Keyboard::FnF2 => 467,
            Keyboard::FnF3 => 468,
            Keyboard::FnF4 => 469,
            Keyboard::FnF5 => 470,
            Keyboard::FnF6 => 471,
            Keyboard::FnF7 => 472,
            Keyboard::FnF8 => 473,
            Keyboard::FnF9 => 474,
            Keyboard::FnF10 => 475,
            Keyboard::FnF11 => 476,
            Keyboard::FnF12 => 477,
            Keyboard::Fn1 => 478,
            Keyboard::Fn2 => 479,
            Keyboard::FnD => 480,
            Keyboard::FnE => 481,
            Keyboard::FnF => 482,
            Keyboard::FnS => 483,
            Keyboard::FnB => 484,
            Keyboard::FnRightShift => 485,
            Keyboard::BrlDot1 => 497,
            Keyboard::BrlDot2 => 498,
            Keyboard::BrlDot3 => 499,
            Keyboard::BrlDot4 => 500,
            Keyboard::BrlDot5 => 501,
            Keyboard::BrlDot6 => 502,
            Keyboard::BrlDot7 => 503,
            Keyboard::BrlDot8 => 504,
            Keyboard::BrlDot9 => 505,
            Keyboard::BrlDot10 => 506,
            Keyboard::Numeric0 => 512,
            Keyboard::Numeric1 => 513,
            Keyboard::Numeric2 => 514,
            Keyboard::Numeric3 => 515,
            Keyboard::Numeric4 => 516,
            Keyboard::Numeric5 => 517,
            Keyboard::Numeric6 => 518,
            Keyboard::Numeric7 => 519,
            Keyboard::Numeric8 => 520,
            Keyboard::Numeric9 => 521,
            Keyboard::NumericStar => 522,
            Keyboard::NumericPound => 523,
            Keyboard::NumericA => 524,
            Keyboard::NumericB => 525,
            Keyboard::NumericC => 526,
            Keyboard::NumericD => 527,
            Keyboard::CameraFocus => 528,
            Keyboard::WpsButton => 529,
            Keyboard::TouchpadToggle => 530,
            Keyboard::TouchpadOn => 531,
            Keyboard::TouchpadOff => 532,
            Keyboard::CameraZoomIn => 533,
            Keyboard::CameraZoomOut => 534,
            Keyboard::CameraUp => 535,
            Keyboard::CameraDown => 536,
            Keyboard::CameraLeft => 537,
            Keyboard::CameraRight => 538,
            Keyboard::AttendantOn => 539,
            Keyboard::AttendantOff => 540,
            Keyboard::AttendantToggle => 541,
            Keyboard::LightsToggle => 542,
            Keyboard::AlsToggle => 560,
            Keyboard::RotateLockToggle => 561,
            Keyboard::RefreshRateToggle => 562,
            Keyboard::ButtonConfig => 576,
            Keyboard::TaskManager => 577,
            Keyboard::Journal => 578,
            Keyboard::ControlPanel => 579,
            Keyboard::AppSelect => 580,
            Keyboard::ScreenSaver => 581,
            Keyboard::VoiceCommand => 582,
            Keyboard::Assistant => 583,
            Keyboard::KbdLayoutNext => 584,
            Keyboard::EmojiPicker => 585,
            Keyboard::Dictate => 586,
            Keyboard::BrightnessMin => 592,
            Keyboard::BrightnessMax => 593,
            Keyboard::KbdInputAssistPrev => 608,
            Keyboard::KbdInputAssistNext => 609,
            Keyboard::KbdInputAssistPrevGroup => 610,
            Keyboard::KbdInputAssistNextGroup => 611,
            Keyboard::KbdInputAssistAccept => 612,
            Keyboard::KbdInputAssistCancel => 613,
            Keyboard::RightUp => 614,
            Keyboard::RightDown => 615,
            Keyboard::LeftUp => 616,
            Keyboard::LeftDown => 617,
            Keyboard::RootMenu => 618,
            Keyboard::MediaTopMenu => 619,
            Keyboard::Numeric11 => 620,
            Keyboard::Numeric12 => 621,
            Keyboard::AudioDesc => 622,
            Keyboard::ThreeDMode => 623,
            Keyboard::NextFavorite => 624,
            Keyboard::StopRecord => 625,
            Keyboard::PauseRecord => 626,
            Keyboard::Vod => 627,
            Keyboard::Unmute => 628,
            Keyboard::FastReverse => 629,
            Keyboard::SlowReverse => 630,
            Keyboard::Data => 631,
            Keyboard::OnScreenKeyboard => 632,
            Keyboard::PrivacyScreenToggle => 633,
            Keyboard::SelectiveScreenshot => 634,
            Keyboard::NextElement => 635,
            Keyboard::PreviousElement => 636,
            Keyboard::AutopilotEngageToggle => 637,
            Keyboard::MarkWaypoint => 638,
            Keyboard::Sos => 639,
            Keyboard::NavChart => 640,
            Keyboard::FishingChart => 641,
            Keyboard::SingleRangeRadar => 642,
            Keyboard::DualRangeRadar => 643,
            Keyboard::RadarOverlay => 644,
            Keyboard::TraditionalSonar => 645,
            Keyboard::ClearvuSonar => 646,
            Keyboard::SidevuSonar => 647,
            Keyboard::NavInfo => 648,
            Keyboard::BrightnessMenu => 649,
            Keyboard::Macro1 => 656,
            Keyboard::Macro2 => 657,
            Keyboard::Macro3 => 658,
            Keyboard::Macro4 => 659,
            Keyboard::Macro5 => 660,
            Keyboard::Macro6 => 661,
            Keyboard::Macro7 => 662,
            Keyboard::Macro8 => 663,
            Keyboard::Macro9 => 664,
            Keyboard::Macro10 => 665,
            Keyboard::Macro11 => 666,
            Keyboard::Macro12 => 667,
            Keyboard::Macro13 => 668,
            Keyboard::Macro14 => 669,
            Keyboard::Macro15 => 670,
            Keyboard::Macro16 => 671,
            Keyboard::Macro17 => 672,
            Keyboard::Macro18 => 673,
            Keyboard::Macro19 => 674,
            Keyboard::Macro20 => 675,
            Keyboard::Macro21 => 676,
            Keyboard::Macro22 => 677,
            Keyboard::Macro23 => 678,
            Keyboard::Macro24 => 679,
            Keyboard::Macro25 => 680,
            Keyboard::Macro26 => 681,
            Keyboard::Macro27 => 682,
            Keyboard::Macro28 => 683,
            Keyboard::Macro29 => 684,
            Keyboard::Macro30 => 685,
            Keyboard::MacroRecordStart => 688,
            Keyboard::MacroRecordStop => 689,
            Keyboard::MacroPresetCycle => 690,
            Keyboard::MacroPreset1 => 691,
            Keyboard::MacroPreset2 => 692,
            Keyboard::MacroPreset3 => 693,
            Keyboard::KbdLcdMenu1 => 696,
            Keyboard::KbdLcdMenu2 => 697,
            Keyboard::KbdLcdMenu3 => 698,
            Keyboard::KbdLcdMenu4 => 699,
            Keyboard::KbdLcdMenu5 => 700,
        })
    }
}

proof fn lemma_page_0()
    ensures
        Keyboard::Reserved.code() == 0,
        Keyboard::of_code_0(0) == Some(Keyboard::Reserved),
        Keyboard::Esc.code() == 1,
        Keyboard::of_code_0(1) == Some(Keyboard::Esc),
        Keyboard::Num1.code() == 2,
        Keyboard::of_code_0(2) == Some(Keyboard::Num1),
        Keyboard::Num2.code() == 3,
        Keyboard::of_code_0(3) == Some(Keyboard::Num2),
        Keyboard::Num3.code() == 4,
        Keyboard::of_code_0(4) == Some(Keyboard::Num3),
        Keyboard::Num4.code() == 5,
        Keyboard::of_code_0(5) == Some(Keyboard::Num4),
        Keyboard::Num5.code() == 6,
        Keyboard::of_code_0(6) == Some(Keyboard::Num5),
        Keyboard::Num6.code() == 7,
        Keyboard::of_code_0(7) == Some(Keyboard::Num6),
        Keyboard::Num7.code() == 8,
        Keyboard::of_code_0(8) == Some(Keyboard::Num7),
        Keyboard::Num8.code() == 9,
        Keyboard::of_code_0(9) == Some(Keyboard::Num8),
        Keyboard::Num9.code() == 10,
        Keyboard::of_code_0(10) == Some(Keyboard::Num9),
        Keyboard::Num0.code() == 11,
        Keyboard::of_code_0(11) == Some(Keyboard::Num0),
        Keyboard::Minus.code() == 12,
        Keyboard::of_code_0(12) == Some(Keyboard::Minus),
        Keyboard::Equal.code() == 13,
        Keyboard::of_code_0(13) == Some(Keyboard::Equal),
        Keyboard::Backspace.code() == 14,
        Keyboard::of_code_0(14) == Some(Keyboard::Backspace),
        Keyboard::Tab.code() == 15,
        Keyboard::of_code_0(15) == Some(Keyboard::Tab),
        Keyboard::Q.code() == 16,
        Keyboard::of_code_0(16) == Some(Keyboard::Q),
        Keyboard::W.code() == 17,
        Keyboard::of_code_0(17) == Some(Keyboard::W),
        Keyboard::E.code() == 18,
        Keyboard::of_code_0(18) == Some(Keyboard::E),
        Keyboard::R.code() == 19,
        Keyboard::of_code_0(19) == Some(Keyboard::R),
        Keyboard::T.code() == 20,
        Keyboard::of_code_0(20) == Some(Keyboard::T),
        Keyboard::Y.code() == 21,
        Keyboard::of_code_0(21) == Some(Keyboard::Y),
        Keyboard::U.code() == 22,
        Keyboard::of_code_0(22) == Some(Keyboard::U),
        Keyboard::I.code() == 23,
        Keyboard::of_code_0(23) == Some(Keyboard::I),
        Keyboard::O.code() == 24,
        Keyboard::of_code_0(24) == Some(Keyboard::O),
        Keyboard::P.code() == 25,
        Keyboard::of_code_0(25) == Some(Keyboard::P),
        Keyboard::LeftBrace.code() == 26,
        Keyboard::of_code_0(26) == Some(Keyboard::LeftBrace),
        Keyboard::RightBrace.code() == 27,
        Keyboard::of_code_0(27) == Some(Keyboard::RightBrace),
        Keyboard::Enter.code() == 28,
        Keyboard::of_code_0(28) == Some(Keyboard::Enter),
        Keyboard::LeftCtrl.code() == 29,
        Keyboard::of_code_0(29) == Some(Keyboard::LeftCtrl),
        Keyboard::A.code() == 30,
        Keyboard::of_code_0(30) == Some(Keyboard::A),
        Keyboard::S.code() == 31,
        Keyboard::of_code_0(31) == Some(Keyboard::S),
        Keyboard::D.code() == 32,
        Keyboard::of_code_0(32) == Some(Keyboard::D),
        Keyboard::F.code() == 33,
        Keyboard::of_code_0(33) == Some(Keyboard::F),
        Keyboard::G.code() == 34,
        Keyboard::of_code_0(34) == Some(Keyboard::G),
        Keyboard::H.code() == 35,
        Keyboard::of_code_0(35) == Some(Keyboard::H),
        Keyboard::J.code() == 36,
        Keyboard::of_code_0(36) == Some(Keyboard::J),
        Keyboard::K.code() == 37,
        Keyboard::of_code_0(37) == Some(Keyboard::K),
        Keyboard::L.code() == 38,
        Keyboard::of_code_0(38) == Some(Keyboard::L),
        Keyboard::Semicolon.code() == 39,
        Keyboard::of_code_0(39) == Some(Keyboard::Semicolon),
        Keyboard::Apostrophe.code() == 40,
        Keyboard::of_code_0(40) == Some(Keyboard::Apostrophe),
        Keyboard::Grave.code() == 41,
        Keyboard::of_code_0(41) == Some(Keyboard::Grave),
        Keyboard::LeftShift.code() == 42,
        Keyboard::of_code_0(42) == Some(Keyboard::LeftShift),
        Keyboard::Backslash.code() == 43,
        Keyboard::of_code_0(43) == Some(Keyboard::Backslash),
        Keyboard::Z.code() == 44,
        Keyboard::of_code_0(44) == Some(Keyboard::Z),
        Keyboard::X.code() == 45,
        Keyboard::of_code_0(45) == Some(Keyboard::X),
        Keyboard::C.code() == 46,
        Keyboard::of_code_0(46) == Some(Keyboard::C),
        Keyboard::V.code() == 47,
        Keyboard::of_code_0(47) == Some(Keyboard::V),
        Keyboard::B.code() == 48,
        Keyboard::of_code_0(48) == Some(Keyboard::B),
        Keyboard::N.code() == 49,
        Keyboard::of_code_0(49) == Some(Keyboard::N),
        Keyboard::M.code() == 50,
        Keyboard::of_code_0(50) == Some(Keyboard::M),
        Keyboard::Comma.code() == 51,
        Keyboard::of_code_0(51) == Some(Keyboard::Comma),
        Keyboard::Dot.code() == 52,
        Keyboard::of_code_0(52) == Some(Keyboard::Dot),
        Keyboard::Slash.code() == 53,
        Keyboard::of_code_0(53) == Some(Keyboard::Slash),
        Keyboard::RightShift.code() == 54,
        Keyboard::of_code_0(54) == Some(Keyboard::RightShift),
        Keyboard::KpAsterisk.code() == 55,
        Keyboard::of_code_0(55) == Some(Keyboard::KpAsterisk),
        Keyboard::LeftAlt.code() == 56,
        Keyboard::of_code_0(56) == Some(Keyboard::LeftAlt),
        Keyboard::Space.code() == 57,
        Keyboard::of_code_0(57) == Some(Keyboard::Space),
        Keyboard::CapsLock.code() == 58,
        Keyboard::of_code_0(58) == Some(Keyboard::CapsLock),
        Keyboard::F1.code() == 59,
        Keyboard::of_code_0(59) == Some(Keyboard::F1),
        Keyboard::F2.code() == 60,
        Keyboard::of_code_0(60) == Some(Keyboard::F2),
        Keyboard::F3.code() == 61,
        Keyboard::of_code_0(61) == Some(Keyboard::F3),
        Keyboard::F4.code() == 62,
        Keyboard::of_code_0(62) == Some(Keyboard::F4),
        Keyboard::F5.code() == 63,
        Keyboard::of_code_0(63) == Some(Keyboard::F5),
{
    reveal(Keyboard::code);
    reveal(Keyboard::of_code_0);
}

proof fn lemma_page_0_is_kept(code: u16)
    ensures
        Keyboard::of_code_0(code) matches Some(found) ==> found.code() == code
            && !crate::button::is_button_range(code),
{
    reveal(Keyboard::of_code_0);
    lemma_page_0();
}

proof fn lemma_page_1()
    ensures
        Keyboard::F6.code() == 64,
        Keyboard::of_code_1(64) == Some(Keyboard::F6),
        Keyboard::F7.code() == 65,
        Keyboard::of_code_1(65) == Some(Keyboard::F7),
        Keyboard::F8.code() == 66,
        Keyboard::of_code_1(66) == Some(Keyboard::F8),
        Keyboard::F9.code() == 67,
        Keyboard::of_code_1(67) == Some(Keyboard::F9),
        Keyboard::F10.code() == 68,
        Keyboard::of_code_1(68) == Some(Keyboard::F10),
        Keyboard::NumLock.code() == 69,
        Keyboard::of_code_1(69) == Some(Keyboard::NumLock),
        Keyboard::ScrollLock.code() == 70,
        Keyboard::of_code_1(70) == Some(Keyboard::ScrollLock),
        Keyboard::Kp7.code() == 71,
        Keyboard::of_code_1(71) == Some(Keyboard::Kp7),
        Keyboard::Kp8.code() == 72,
        Keyboard::of_code_1(72) == Some(Keyboard::Kp8),
        Keyboard::Kp9.code() == 73,
        Keyboard::of_code_1(73) == Some(Keyboard::Kp9),
        Keyboard::KpMinus.code() == 74,
        Keyboard::of_code_1(74) == Some(Keyboard::KpMinus),
        Keyboard::Kp4.code() == 75,
        Keyboard::of_code_1(75) == Some(Keyboard::Kp4),
        Keyboard::Kp5.code() == 76,
        Keyboard::of_code_1(76) == Some(Keyboard::Kp5),
        Keyboard::Kp6.code() == 77,
        Keyboard::of_code_1(77) == Some(Keyboard::Kp6),
        Keyboard::KpPlus.code() == 78,
        Keyboard::of_code_1(78) == Some(Keyboard::KpPlus),
        Keyboard::Kp1.code() == 79,
        Keyboard::of_code_1(79) == Some(Keyboard::Kp1),
        Keyboard::Kp2.code() == 80,
        Keyboard::of_code_1(80) == Some(Keyboard::Kp2),
        Keyboard::Kp3.code() == 81,
        Keyboard::of_code_1(81) == Some(Keyboard::Kp3),
        Keyboard::Kp0.code() == 82,
        Keyboard::of_code_1(82) == Some(Keyboard::Kp0),
        Keyboard::KpDot.code() == 83,
        Keyboard::of_code_1(83) == Some(Keyboard::KpDot),
        Keyboard::ZenkakuHankaku.code() == 85,
        Keyboard::of_code_1(85) == Some(Keyboard::ZenkakuHankaku),
        Keyboard::NonUsBackslash.code() == 86,
        Keyboard::of_code_1(86) == Some(Keyboard::NonUsBackslash),
        Keyboard::F11.code() == 87,
        Keyboard::of_code_1(87) == Some(Keyboard::F11),
        Keyboard::F12.code() == 88,
        Keyboard::of_code_1(88) == Some(Keyboard::F12),
        Keyboard::Ro.code() == 89,
        Keyboard::of_code_1(89) == Some(Keyboard::Ro),
        Keyboard::Katakana.code() == 90,
        Keyboard::of_code_1(90) == Some(Keyboard::Katakana),
        Keyboard::Hiragana.code() == 91,
        Keyboard::of_code_1(91) == Some(Keyboard::Hiragana),
        Keyboard::Henkan.code() == 92,
        Keyboard::of_code_1(92) == Some(Keyboard::Henkan),
        Keyboard::KatakanaHiragana.code() == 93,
        Keyboard::of_code_1(93) == Some(Keyboard::KatakanaHiragana),
        Keyboard::Muhenkan.code() == 94,
        Keyboard::of_code_1(94) == Some(Keyboard::Muhenkan),
        Keyboard::KpJpComma.code() == 95,
        Keyboard::of_code_1(95) == Some(Keyboard::KpJpComma),
        Keyboard::KpEnter.code() == 96,
        Keyboard::of_code_1(96) == Some(Keyboard::KpEnter),
        Keyboard::RightCtrl.code() == 97,
        Keyboard::of_code_1(97) == Some(Keyboard::RightCtrl),
        Keyboard::KpSlash.code() == 98,
        Keyboard::of_code_1(98) == Some(Keyboard::KpSlash),
        Keyboard::SysRq.code() == 99,
        Keyboard::of_code_1(99) == Some(Keyboard::SysRq),
        Keyboard::RightAlt.code() == 100,
        Keyboard::of_code_1(100) == Some(Keyboard::RightAlt),
        Keyboard::LineFeed.code() == 101,
        Keyboard::of_code_1(101) == Some(Keyboard::LineFeed),
        Keyboard::Home.code() == 102,
        Keyboard::of_code_1(102) == Some(Keyboard::Home),
        Keyboard::Up.code() == 103,
        Keyboard::of_code_1(103) == Some(Keyboard::Up),
        Keyboard::PageUp.code() == 104,
        Keyboard::of_code_1(104) == Some(Keyboard::PageUp),
        Keyboard::Left.code() == 105,
        Keyboard::of_code_1(105) == Some(Keyboard::Left),
        Keyboard::Right.code() == 106,
        Keyboard::of_code_1(106) == Some(Keyboard::Right),
        Keyboard::End.code() == 107,
        Keyboard::of_code_1(107) == Some(Keyboard::End),
        Keyboard::Down.code() == 108,
        Keyboard::of_code_1(108) == Some(Keyboard::Down),
        Keyboard::PageDown.code() == 109,
        Keyboard::of_code_1(109) == Some(Keyboard::PageDown),
        Keyboard::Insert.code() == 110,
        Keyboard::of_code_1(110) == Some(Keyboard::Insert),
        Keyboard::Delete.code() == 111,
        Keyboard::of_code_1(111) == Some(Keyboard::Delete),
        Keyboard::Macro.code() == 112,
        Keyboard::of_code_1(112) == Some(Keyboard::Macro),
        Keyboard::Mute.code() == 113,
        Keyboard::of_code_1(113) == Some(Keyboard::Mute),
        Keyboard::VolumeDown.code() == 114,
        Keyboard::of_code_1(114) == Some(Keyboard::VolumeDown),
        Keyboard::VolumeUp.code() == 115,
        Keyboard::of_code_1(115) == Some(Keyboard::VolumeUp),
        Keyboard::Power.code() == 116,
        Keyboard::of_code_1(116) == Some(Keyboard::Power),
        Keyboard::KpEqual.code() == 117,
        Keyboard::of_code_1(117) == Some(Keyboard::KpEqual),
        Keyboard::KpPlusMinus.code() == 118,
        Keyboard::of_code_1(118) == Some(Keyboard::KpPlusMinus),
        Keyboard::Pause.code() == 119,
        Keyboard::of_code_1(119) == Some(Keyboard::Pause),
        Keyboard::Scale.code() == 120,
        Keyboard::of_code_1(120) == Some(Keyboard::Scale),
        Keyboard::KpComma.code() == 121,
        Keyboard::of_code_1(121) == Some(Keyboard::KpComma),
        Keyboard::Hangeul.code() == 122,
        Keyboard::of_code_1(122) == Some(Keyboard::Hangeul),
        Keyboard::Hanja.code() == 123,
        Keyboard::of_code_1(123) == Some(Keyboard::Hanja),
        Keyboard::Yen.code() == 124,
        Keyboard::of_code_1(124) == Some(Keyboard::Yen),
        Keyboard::LeftMeta.code() == 125,
        Keyboard::of_code_1(125) == Some(Keyboard::LeftMeta),
        Keyboard::RightMeta.code() == 126,
        Keyboard::of_code_1(126) == Some(Keyboard::RightMeta),
        Keyboard::Compose.code() == 127,
        Keyboard::of_code_1(127) == Some(Keyboard::Compose),
{
    reveal(Keyboard::code);
    reveal(Keyboard::of_code_1);
}

proof fn lemma_page_1_is_kept(code: u16)
    ensures
        Keyboard::of_code_1(code) matches Some(found) ==> found.code() == code
            && !crate::button::is_button_range(code),
{
    reveal(Keyboard::of_code_1);
    lemma_page_1();
}

proof fn lemma_page_2()
    ensures
        Keyboard::Stop.code() == 128,
        Keyboard::of_code_2(128) == Some(Keyboard::Stop),
        Keyboard::Again.code() == 129,
        Keyboard::of_code_2(129) == Some(Keyboard::Again),
        Keyboard::Props.code() == 130,
        Keyboard::of_code_2(130) == Some(Keyboard::Props),
        Keyboard::Undo.code() == 131,
        Keyboard::of_code_2(131) == Some(Keyboard::Undo),
        Keyboard::Front.code() == 132,
        Keyboard::of_code_2(132) == Some(Keyboard::Front),
        Keyboard::Copy.code() == 133,
        Keyboard::of_code_2(133) == Some(Keyboard::Copy),
        Keyboard::Open.code() == 134,
        Keyboard::of_code_2(134) == Some(Keyboard::Open),
        Keyboard::Paste.code() == 135,
        Keyboard::of_code_2(135) == Some(Keyboard::Paste),
        Keyboard::Find.code() == 136,
        Keyboard::of_code_2(136) == Some(Keyboard::Find),
        Keyboard::Cut.code() == 137,
        Keyboard::of_code_2(137) == Some(Keyboard::Cut),
        Keyboard::Help.code() == 138,
        Keyboard::of_code_2(138) == Some(Keyboard::Help),
        Keyboard::Menu.code() == 139,
        Keyboard::of_code_2(139) == Some(Keyboard::Menu),
        Keyboard::Calc.code() == 140,
        Keyboard::of_code_2(140) == Some(Keyboard::Calc),
        Keyboard::Setup.code() == 141,
        Keyboard::of_code_2(141) == Some(Keyboard::Setup),
        Keyboard::Sleep.code() == 142,
        Keyboard::of_code_2(142) == Some(Keyboard::Sleep),
        Keyboard::WakeUp.code() == 143,
        Keyboard::of_code_2(143) == Some(Keyboard::WakeUp),
        Keyboard::File.code() == 144,
        Keyboard::of_code_2(144) == Some(Keyboard::File),
        Keyboard::SendFile.code() == 145,
        Keyboard::of_code_2(145) == Some(Keyboard::SendFile),
        Keyboard::DeleteFile.code() == 146,
        Keyboard::of_code_2(146) == Some(Keyboard::DeleteFile),
        Keyboard::Xfer.code() == 147,
        Keyboard::of_code_2(147) == Some(Keyboard::Xfer),
        Keyboard::Prog1.code() == 148,
        Keyboard::of_code_2(148) == Some(Keyboard::Prog1),
        Keyboard::Prog2.code() == 149,
        Keyboard::of_code_2(149) == Some(Keyboard::Prog2),
        Keyboard::Www.code() == 150,
        Keyboard::of_code_2(150) == Some(Keyboard::Www),
        Keyboard::MsDos.code() == 151,
        Keyboard::of_code_2(151) == Some(Keyboard::MsDos),
        Keyboard::Coffee.code() == 152,
        Keyboard::of_code_2(152) == Some(Keyboard::Coffee),
        Keyboard::RotateDisplay.code() == 153,
        Keyboard::of_code_2(153) == Some(Keyboard::RotateDisplay),
        Keyboard::CycleWindows.code() == 154,
        Keyboard::of_code_2(154) == Some(Keyboard::CycleWindows),
        Keyboard::Mail.code() == 155,
        Keyboard::of_code_2(155) == Some(Keyboard::Mail),
        Keyboard::Bookmarks.code() == 156,
        Keyboard::of_code_2(156) == Some(Keyboard::Bookmarks),
        Keyboard::Computer.code() == 157,
        Keyboard::of_code_2(157) == Some(Keyboard::Computer),
        Keyboard::Back.code() == 158,
        Keyboard::of_code_2(158) == Some(Keyboard::Back),
        Keyboard::Forward.code() == 159,
        Keyboard::of_code_2(159) == Some(Keyboard::Forward),
        Keyboard::CloseCd.code() == 160,
        Keyboard::of_code_2(160) == Some(Keyboard::CloseCd),
        Keyboard::EjectCd.code() == 161,
        Keyboard::of_code_2(161) == Some(Keyboard::EjectCd),
        Keyboard::EjectCloseCd.code() == 162,
        Keyboard::of_code_2(162) == Some(Keyboard::EjectCloseCd),
        Keyboard::NextSong.code() == 163,
        Keyboard::of_code_2(163) == Some(Keyboard::NextSong),
        Keyboard::PlayPause.code() == 164,
        Keyboard::of_code_2(164) == Some(Keyboard::PlayPause),
        Keyboard::PreviousSong.code() == 165,
        Keyboard::of_code_2(165) == Some(Keyboard::PreviousSong),
        Keyboard::StopCd.code() == 166,
        Keyboard::of_code_2(166) == Some(Keyboard::StopCd),
        Keyboard::Record.code() == 167,
        Keyboard::of_code_2(167) == Some(Keyboard::Record),
        Keyboard::Rewind.code() == 168,
        Keyboard::of_code_2(168) == Some(Keyboard::Rewind),
        Keyboard::Phone.code() == 169,
        Keyboard::of_code_2(169) == Some(Keyboard::Phone),
        Keyboard::Iso.code() == 170,
        Keyboard::of_code_2(170) == Some(Keyboard::Iso),
        Keyboard::Config.code() == 171,
        Keyboard::of_code_2(171) == Some(Keyboard::Config),
        Keyboard::HomePage.code() == 172,
        Keyboard::of_code_2(172) == Some(Keyboard::HomePage),
        Keyboard::Refresh.code() == 173,
        Keyboard::of_code_2(173) == Some(Keyboard::Refresh),
        Keyboard::Exit.code() == 174,
        Keyboard::of_code_2(174) == Some(Keyboard::Exit),
        Keyboard::Move.code() == 175,
        Keyboard::of_code_2(175) == Some(Keyboard::Move),
        Keyboard::Edit.code() == 176,
        Keyboard::of_code_2(176) == Some(Keyboard::Edit),
        Keyboard::ScrollUp.code() == 177,
        Keyboard::of_code_2(177) == Some(Keyboard::ScrollUp),
        Keyboard::ScrollDown.code() == 178,
        Keyboard::of_code_2(178) == Some(Keyboard::ScrollDown),
        Keyboard::KpLeftParen.code() == 179,
        Keyboard::of_code_2(179) == Some(Keyboard::KpLeftParen),
        Keyboard::KpRightParen.code() == 180,
        Keyboard::of_code_2(180) == Some(Keyboard::KpRightParen),
        Keyboard::New.code() == 181,
        Keyboard::of_code_2(181) == Some(Keyboard::New),
        Keyboard::Redo.code() == 182,
        Keyboard::of_code_2(182) == Some(Keyboard::Redo),
        Keyboard::F13.code() == 183,
        Keyboard::of_code_2(183) == Some(Keyboard::F13),
        Keyboard::F14.code() == 184,
        Keyboard::of_code_2(184) == Some(Keyboard::F14),
        Keyboard::F15.code() == 185,
        Keyboard::of_code_2(185) == Some(Keyboard::F15),
        Keyboard::F16.code() == 186,
        Keyboard::of_code_2(186) == Some(Keyboard::F16),
        Keyboard::F17.code() == 187,
        Keyboard::of_code_2(187) == Some(Keyboard::F17),
        Keyboard::F18.code() == 188,
        Keyboard::of_code_2(188) == Some(Keyboard::F18),
        Keyboard::F19.code() == 189,
        Keyboard::of_code_2(189) == Some(Keyboard::F19),
        Keyboard::F20.code() == 190,
        Keyboard::of_code_2(190) == Some(Keyboard::F20),
        Keyboard::F21.code() == 191,
        Keyboard::of_code_2(191) == Some(Keyboard::F21),
{
    reveal(Keyboard::code);
    reveal(Keyboard::of_code_2);
}

proof fn lemma_page_2_is_kept(code: u16)
    ensures
        Keyboard::of_code_2(code) matches Some(found) ==> found.code() == code
            && !crate::button::is_button_range(code),
{
    reveal(Keyboard::of_code_2);
    lemma_page_2();
}

proof fn lemma_page_3()
    ensures
        Keyboard::F22.code() == 192,
        Keyboard::of_code_3(192) == Some(Keyboard::F22),
        Keyboard::F23.code() == 193,
        Keyboard::of_code_3(193) == Some(Keyboard::F23),
        Keyboard::F24.code() == 194,
        Keyboard::of_code_3(194) == Some(Keyboard::F24),
        Keyboard::PlayCd.code() == 200,
        Keyboard::of_code_3(200) == Some(Keyboard::PlayCd),
        Keyboard::PauseCd.code() == 201,
        Keyboard::of_code_3(201) == Some(Keyboard::PauseCd),
        Keyboard::Prog3.code() == 202,
        Keyboard::of_code_3(202) == Some(Keyboard::Prog3),
        Keyboard::Prog4.code() == 203,
        Keyboard::of_code_3(203) == Some(Keyboard::Prog4),
        Keyboard::AllApplications.code() == 204,
        Keyboard::of_code_3(204) == Some(Keyboard::AllApplications),
        Keyboard::Suspend.code() == 205,
        Keyboard::of_code_3(205) == Some(Keyboard::Suspend),
        Keyboard::Close.code() == 206,
        Keyboard::of_code_3(206) == Some(Keyboard::Close),
        Keyboard::Play.code() == 207,
        Keyboard::of_code_3(207) == Some(Keyboard::Play),
        Keyboard::FastForward.code() == 208,
        Keyboard::of_code_3(208) == Some(Keyboard::FastForward),
        Keyboard::BassBoost.code() == 209,
        Keyboard::of_code_3(209) == Some(Keyboard::BassBoost),
        Keyboard::Print.code() == 210,
        Keyboard::of_code_3(210) == Some(Keyboard::Print),
        Keyboard::Hp.code() == 211,
        Keyboard::of_code_3(211) == Some(Keyboard::Hp),
        Keyboard::Camera.code() == 212,
        Keyboard::of_code_3(212) == Some(Keyboard::Camera),
        Keyboard::Sound.code() == 213,
        Keyboard::of_code_3(213) == Some(Keyboard::Sound),
        Keyboard::Question.code() == 214,
        Keyboard::of_code_3(214) == Some(Keyboard::Question),
        Keyboard::Email.code() == 215,
        Keyboard::of_code_3(215) == Some(Keyboard::Email),
        Keyboard::Chat.code() == 216,
        Keyboard::of_code_3(216) == Some(Keyboard::Chat),
        Keyboard::Search.code() == 217,
        Keyboard::of_code_3(217) == Some(Keyboard::Search),
        Keyboard::Connect.code() == 218,
        Keyboard::of_code_3(218) == Some(Keyboard::Connect),
        Keyboard::Finance.code() == 219,
        Keyboard::of_code_3(219) == Some(Keyboard::Finance),
        Keyboard::Sport.code() == 220,
        Keyboard::of_code_3(220) == Some(Keyboard::Sport),
        Keyboard::Shop.code() == 221,
        Keyboard::of_code_3(221) == Some(Keyboard::Shop),
        Keyboard::AltErase.code() == 222,
        Keyboard::of_code_3(222) == Some(Keyboard::AltErase),
        Keyboard::Cancel.code() == 223,
        Keyboard::of_code_3(223) == Some(Keyboard::Cancel),
        Keyboard::BrightnessDown.code() == 224,
        Keyboard::of_code_3(224) == Some(Keyboard::BrightnessDown),
        Keyboard::BrightnessUp.code() == 225,
        Keyboard::of_code_3(225) == Some(Keyboard::BrightnessUp),
        Keyboard::Media.code() == 226,
        Keyboard::of_code_3(226) == Some(Keyboard::Media),
        Keyboard::SwitchVideoMode.code() == 227,
        Keyboard::of_code_3(227) == Some(Keyboard::SwitchVideoMode),
        Keyboard::KbdIllumToggle.code() == 228,
        Keyboard::of_code_3(228) == Some(Keyboard::KbdIllumToggle),
        Keyboard::KbdIllumDown.code() == 229,
        Keyboard::of_code_3(229) == Some(Keyboard::KbdIllumDown),
        Keyboard::KbdIllumUp.code() == 230,
        Keyboard::of_code_3(230) == Some(Keyboard::KbdIllumUp),
        Keyboard::Send.code() == 231,
        Keyboard::of_code_3(231) == Some(Keyboard::Send),
        Keyboard::Reply.code() == 232,
        Keyboard::of_code_3(232) == Some(Keyboard::Reply),
        Keyboard::ForwardMail.code() == 233,
        Keyboard::of_code_3(233) == Some(Keyboard::ForwardMail),
        Keyboard::Save.code() == 234,
        Keyboard::of_code_3(234) == Some(Keyboard::Save),
        Keyboard::Documents.code() == 235,
        Keyboard::of_code_3(235) == Some(Keyboard::Documents),
        Keyboard::Battery.code() == 236,
        Keyboard::of_code_3(236) == Some(Keyboard::Battery),
        Keyboard::Bluetooth.code() == 237,
        Keyboard::of_code_3(237) == Some(Keyboard::Bluetooth),
        Keyboard::Wlan.code() == 238,
        Keyboard::of_code_3(238) == Some(Keyboard::Wlan),
        Keyboard::Uwb.code() == 239,
        Keyboard::of_code_3(239) == Some(Keyboard::Uwb),
        Keyboard::Unknown.code() == 240,
        Keyboard::of_code_3(240) == Some(Keyboard::Unknown),
        Keyboard::VideoNext.code() == 241,
        Keyboard::of_code_3(241) == Some(Keyboard::VideoNext),
        Keyboard::VideoPrev.code() == 242,
        Keyboard::of_code_3(242) == Some(Keyboard::VideoPrev),
        Keyboard::BrightnessCycle.code() == 243,
        Keyboard::of_code_3(243) == Some(Keyboard::BrightnessCycle),
        Keyboard::BrightnessAuto.code() == 244,
        Keyboard::of_code_3(244) == Some(Keyboard::BrightnessAuto),
        Keyboard::DisplayOff.code() == 245,
        Keyboard::of_code_3(245) == Some(Keyboard::DisplayOff),
        Keyboard::Wwan.code() == 246,
        Keyboard::of_code_3(246) == Some(Keyboard::Wwan),
        Keyboard::Rfkill.code() == 247,
        Keyboard::of_code_3(247) == Some(Keyboard::Rfkill),
        Keyboard::MicMute.code() == 248,
        Keyboard::of_code_3(248) == Some(Keyboard::MicMute),
{
    reveal(Keyboard::code);
    reveal(Keyboard::of_code_3);
}

proof fn lemma_page_3_is_kept(code: u16)
    ensures
        Keyboard::of_code_3(code) matches Some(found) ==> found.code() == code
            && !crate::button::is_button_range(code),
{
    reveal(Keyboard::of_code_3);
    lemma_page_3();
}

proof fn lemma_page_5()
    ensures
        Keyboard::OkKey.code() == 352,
        Keyboard::of_code_5(352) == Some(Keyboard::OkKey),
        Keyboard::Select.code() == 353,
        Keyboard::of_code_5(353) == Some(Keyboard::Select),
        Keyboard::Goto.code() == 354,
        Keyboard::of_code_5(354) == Some(Keyboard::Goto),
        Keyboard::Clear.code() == 355,
        Keyboard::of_code_5(355) == Some(Keyboard::Clear),
        Keyboard::Power2.code() == 356,
        Keyboard::of_code_5(356) == Some(Keyboard::Power2),
        Keyboard::OptionKey.code() == 357,
        Keyboard::of_code_5(357) == Some(Keyboard::OptionKey),
        Keyboard::Info.code() == 358,
        Keyboard::of_code_5(358) == Some(Keyboard::Info),
        Keyboard::Time.code() == 359,
        Keyboard::of_code_5(359) == Some(Keyboard::Time),
        Keyboard::Vendor.code() == 360,
        Keyboard::of_code_5(360) == Some(Keyboard::Vendor),
        Keyboard::Archive.code() == 361,
        Keyboard::of_code_5(361) == Some(Keyboard::Archive),
        Keyboard::Program.code() == 362,
        Keyboard::of_code_5(362) == Some(Keyboard::Program),
        Keyboard::Channel.code() == 363,
        Keyboard::of_code_5(363) == Some(Keyboard::Channel),
        Keyboard::Favorites.code() == 364,
        Keyboard::of_code_5(364) == Some(Keyboard::Favorites),
        Keyboard::Epg.code() == 365,
        Keyboard::of_code_5(365) == Some(Keyboard::Epg),
        Keyboard::Pvr.code() == 366,
        Keyboard::of_code_5(366) == Some(Keyboard::Pvr),
        Keyboard::Mhp.code() == 367,
        Keyboard::of_code_5(367) == Some(Keyboard::Mhp),
        Keyboard::Language.code() == 368,
        Keyboard::of_code_5(368) == Some(Keyboard::Language),
        Keyboard::Title.code() == 369,
        Keyboard::of_code_5(369) == Some(Keyboard::Title),
        Keyboard::Subtitle.code() == 370,
        Keyboard::of_code_5(370) == Some(Keyboard::Subtitle),
        Keyboard::Angle.code() == 371,
        Keyboard::of_code_5(371) == Some(Keyboard::Angle),
        Keyboard::FullScreen.code() == 372,
        Keyboard::of_code_5(372) == Some(Keyboard::FullScreen),
        Keyboard::Mode.code() == 373,
        Keyboard::of_code_5(373) == Some(Keyboard::Mode),
        Keyboard::Keyboard.code() == 374,
        Keyboard::of_code_5(374) == Some(Keyboard::Keyboard),
        Keyboard::AspectRatio.code() == 375,
        Keyboard::of_code_5(375) == Some(Keyboard::AspectRatio),
        Keyboard::Pc.code() == 376,
        Keyboard::of_code_5(376) == Some(Keyboard::Pc),
        Keyboard::Tv.code() == 377,
        Keyboard::of_code_5(377) == Some(Keyboard::Tv),
        Keyboard::Tv2.code() == 378,
        Keyboard::of_code_5(378) == Some(Keyboard::Tv2),
        Keyboard::Vcr.code() == 379,
        Keyboard::of_code_5(379) == Some(Keyboard::Vcr),
        Keyboard::Vcr2.code() == 380,
        Keyboard::of_code_5(380) == Some(Keyboard::Vcr2),
        Keyboard::Sat.code() == 381,
        Keyboard::of_code_5(381) == Some(Keyboard::Sat),
        Keyboard::Sat2.code() == 382,
        Keyboard::of_code_5(382) == Some(Keyboard::Sat2),
        Keyboard::Cd.code() == 383,
        Keyboard::of_code_5(383) == Some(Keyboard::Cd),
{
    reveal(Keyboard::code);
    reveal(Keyboard::of_code_5);
}

proof fn lemma_page_5_is_kept(code: u16)
    ensures
        Keyboard::of_code_5(code) matches Some(found) ==> found.code() == code
            && !crate::button::is_button_range(code),
{
    reveal(Keyboard::of_code_5);
    lemma_page_5();
}

proof fn lemma_page_6()
    ensures
        Keyboard::Tape.code() == 384,
        Keyboard::of_code_6(384) == Some(Keyboard::Tape),
        Keyboard::Radio.code() == 385,
        Keyboard::of_code_6(385) == Some(Keyboard::Radio),
        Keyboard::Tuner.code() == 386,
        Keyboard::of_code_6(386) == Some(Keyboard::Tuner),
        Keyboard::Player.code() == 387,
        Keyboard::of_code_6(387) == Some(Keyboard::Player),
        Keyboard::Text.code() == 388,
        Keyboard::of_code_6(388) == Some(Keyboard::Text),
        Keyboard::Dvd.code() == 389,
        Keyboard::of_code_6(389) == Some(Keyboard::Dvd),
        Keyboard::Aux.code() == 390,
        Keyboard::of_code_6(390) == Some(Keyboard::Aux),
        Keyboard::Mp3.code() == 391,
        Keyboard::of_code_6(391) == Some(Keyboard::Mp3),
        Keyboard::Audio.code() == 392,
        Keyboard::of_code_6(392) == Some(Keyboard::Audio),
        Keyboard::Video.code() == 393,
        Keyboard::of_code_6(393) == Some(Keyboard::Video),
        Keyboard::Directory.code() == 394,
        Keyboard::of_code_6(394) == Some(Keyboard::Directory),
        Keyboard::List.code() == 395,
        Keyboard::of_code_6(395) == Some(Keyboard::List),
        Keyboard::Memo.code() == 396,
        Keyboard::of_code_6(396) == Some(Keyboard::Memo),
        Keyboard::Calendar.code() == 397,
        Keyboard::of_code_6(397) == Some(Keyboard::Calendar),
        Keyboard::Red.code() == 398,
        Keyboard::of_code_6(398) == Some(Keyboard::Red),
        Keyboard::Green.code() == 399,
        Keyboard::of_code_6(399) == Some(Keyboard::Green),
        Keyboard::Yellow.code() == 400,
        Keyboard::of_code_6(400) == Some(Keyboard::Yellow),
        Keyboard::Blue.code() == 401,
        Keyboard::of_code_6(401) == Some(Keyboard::Blue),
        Keyboard::ChannelUp.code() == 402,
        Keyboard::of_code_6(402) == Some(Keyboard::ChannelUp),
        Keyboard::ChannelDown.code() == 403,
        Keyboard::of_code_6(403) == Some(Keyboard::ChannelDown),
        Keyboard::First.code() == 404,
        Keyboard::of_code_6(404) == Some(Keyboard::First),
        Keyboard::Last.code() == 405,
        Keyboard::of_code_6(405) == Some(Keyboard::Last),
        Keyboard::Ab.code() == 406,
        Keyboard::of_code_6(406) == Some(Keyboard::Ab),
        Keyboard::Next.code() == 407,
        Keyboard::of_code_6(407) == Some(Keyboard::Next),
        Keyboard::Restart.code() == 408,
        Keyboard::of_code_6(408) == Some(Keyboard::Restart),
        Keyboard::Slow.code() == 409,
        Keyboard::of_code_6(409) == Some(Keyboard::Slow),
        Keyboard::Shuffle.code() == 410,
        Keyboard::of_code_6(410) == Some(Keyboard::Shuffle),
        Keyboard::Break.code() == 411,
        Keyboard::of_code_6(411) == Some(Keyboard::Break),
        Keyboard::Previous.code() == 412,
        Keyboard::of_code_6(412) == Some(Keyboard::Previous),
        Keyboard::Digits.code() == 413,
        Keyboard::of_code_6(413) == Some(Keyboard::Digits),
        Keyboard::Teen.code() == 414,
        Keyboard::of_code_6(414) == Some(Keyboard::Teen),
        Keyboard::Twen.code() == 415,
        Keyboard::of_code_6(415) == Some(Keyboard::Twen),
        Keyboard::VideoPhone.code() == 416,
        Keyboard::of_code_6(416) == Some(Keyboard::VideoPhone),
        Keyboard::Games.code() == 417,
        Keyboard::of_code_6(417) == Some(Keyboard::Games),
        Keyboard::ZoomIn.code() == 418,
        Keyboard::of_code_6(418) == Some(Keyboard::ZoomIn),
        Keyboard::ZoomOut.code() == 419,
        Keyboard::of_code_6(419) == Some(Keyboard::ZoomOut),
        Keyboard::ZoomReset.code() == 420,
        Keyboard::of_code_6(420) == Some(Keyboard::ZoomReset),
        Keyboard::WordProcessor.code() == 421,
        Keyboard::of_code_6(421) == Some(Keyboard::WordProcessor),
        Keyboard::Editor.code() == 422,
        Keyboard::of_code_6(422) == Some(Keyboard::Editor),
        Keyboard::Spreadsheet.code() == 423,
        Keyboard::of_code_6(423) == Some(Keyboard::Spreadsheet),
        Keyboard::GraphicsEditor.code() == 424,
        Keyboard::of_code_6(424) == Some(Keyboard::GraphicsEditor),
        Keyboard::Presentation.code() == 425,
        Keyboard::of_code_6(425) == Some(Keyboard::Presentation),
        Keyboard::Database.code() == 426,
        Keyboard::of_code_6(426) == Some(Keyboard::Database),
        Keyboard::News.code() == 427,
        Keyboard::of_code_6(427) == Some(Keyboard::News),
        Keyboard::VoiceMail.code() == 428,
        Keyboard::of_code_6(428) == Some(Keyboard::VoiceMail),
        Keyboard::AddressBook.code() == 429,
        Keyboard::of_code_6(429) == Some(Keyboard::AddressBook),
        Keyboard::Messenger.code() == 430,
        Keyboard::of_code_6(430) == Some(Keyboard::Messenger),
        Keyboard::DisplayToggle.code() == 431,
        Keyboard::of_code_6(431) == Some(Keyboard::DisplayToggle),
        Keyboard::SpellCheck.code() == 432,
        Keyboard::of_code_6(432) == Some(Keyboard::SpellCheck),
        Keyboard::LogOff.code() == 433,
        Keyboard::of_code_6(433) == Some(Keyboard::LogOff),
        Keyboard::Dollar.code() == 434,
        Keyboard::of_code_6(434) == Some(Keyboard::Dollar),
        Keyboard::Euro.code() == 435,
        Keyboard::of_code_6(435) == Some(Keyboard::Euro),
        Keyboard::FrameBack.code() == 436,
        Keyboard::of_code_6(436) == Some(Keyboard::FrameBack),
        Keyboard::FrameForward.code() == 437,
        Keyboard::of_code_6(437) == Some(Keyboard::FrameForward),
        Keyboard::ContextMenu.code() == 438,
        Keyboard::of_code_6(438) == Some(Keyboard::ContextMenu),
        Keyboard::MediaRepeat.code() == 439,
        Keyboard::of_code_6(439) == Some(Keyboard::MediaRepeat),
        Keyboard::TenChannelsUp.code() == 440,
        Keyboard::of_code_6(440) == Some(Keyboard::TenChannelsUp),
        Keyboard::TenChannelsDown.code() == 441,
        Keyboard::of_code_6(441) == Some(Keyboard::TenChannelsDown),
        Keyboard::Images.code() == 442,
        Keyboard::of_code_6(442) == Some(Keyboard::Images),
        Keyboard::NotificationCenter.code() == 444,
        Keyboard::of_code_6(444) == Some(Keyboard::NotificationCenter),
        Keyboard::PickupPhone.code() == 445,
        Keyboard::of_code_6(445) == Some(Keyboard::PickupPhone),
        Keyboard::HangupPhone.code() == 446,
        Keyboard::of_code_6(446) == Some(Keyboard::HangupPhone),
        Keyboard::LinkPhone.code() == 447,
        Keyboard::of_code_6(447) == Some(Keyboard::LinkPhone),
{
    reveal(Keyboard::code);
    reveal(Keyboard::of_code_6);
}

proof fn lemma_page_6_is_kept(code: u16)
    ensures
        Keyboard::of_code_6(code) matches Some(found) ==> found.code() == code
            && !crate::button::is_button_range(code),
{
    reveal(Keyboard::of_code_6);
    lemma_page_6();
}

proof fn lemma_page_7()
    ensures
        Keyboard::DelEol.code() == 448,
        Keyboard::of_code_7(448) == Some(Keyboard::DelEol),
        Keyboard::DelEos.code() == 449,
        Keyboard::of_code_7(449) == Some(Keyboard::DelEos),
        Keyboard::InsLine.code() == 450,
        Keyboard::of_code_7(450) == Some(Keyboard::InsLine),
        Keyboard::DelLine.code() == 451,
        Keyboard::of_code_7(451) == Some(Keyboard::DelLine),
        Keyboard::Fn.code() == 464,
        Keyboard::of_code_7(464) == Some(Keyboard::Fn),
        Keyboard::FnEsc.code() == 465,
        Keyboard::of_code_7(465) == Some(Keyboard::FnEsc),
        Keyboard::FnF1.code() == 466,
        Keyboard::of_code_7(466) == Some(Keyboard::FnF1),
        Keyboard::FnF2.code() == 467,
        Keyboard::of_code_7(467) == Some(Keyboard::FnF2),
        Keyboard::FnF3.code() == 468,
        Keyboard::of_code_7(468) == Some(Keyboard::FnF3),
        Keyboard::FnF4.code() == 469,
        Keyboard::of_code_7(469) == Some(Keyboard::FnF4),
        Keyboard::FnF5.code() == 470,
        Keyboard::of_code_7(470) == Some(Keyboard::FnF5),
        Keyboard::FnF6.code() == 471,
        Keyboard::of_code_7(471) == Some(Keyboard::FnF6),
        Keyboard::FnF7.code() == 472,
        Keyboard::of_code_7(472) == Some(Keyboard::FnF7),
        Keyboard::FnF8.code() == 473,
        Keyboard::of_code_7(473) == Some(Keyboard::FnF8),
        Keyboard::FnF9.code() == 474,
        Keyboard::of_code_7(474) == Some(Keyboard::FnF9),
        Keyboard::FnF10.code() == 475,
        Keyboard::of_code_7(475) == Some(Keyboard::FnF10),
        Keyboard::FnF11.code() == 476,
        Keyboard::of_code_7(476) == Some(Keyboard::FnF11),
        Keyboard::FnF12.code() == 477,
        Keyboard::of_code_7(477) == Some(Keyboard::FnF12),
        Keyboard::Fn1.code() == 478,
        Keyboard::of_code_7(478) == Some(Keyboard::Fn1),
        Keyboard::Fn2.code() == 479,
        Keyboard::of_code_7(479) == Some(Keyboard::Fn2),
        Keyboard::FnD.code() == 480,
        Keyboard::of_code_7(480) == Some(Keyboard::FnD),
        Keyboard::FnE.code() == 481,
        Keyboard::of_code_7(481) == Some(Keyboard::FnE),
        Keyboard::FnF.code() == 482,
        Keyboard::of_code_7(482) == Some(Keyboard::FnF),
        Keyboard::FnS.code() == 483,
        Keyboard::of_code_7(483) == Some(Keyboard::FnS),
        Keyboard::FnB.code() == 484,
        Keyboard::of_code_7(484) == Some(Keyboard::FnB),
        Keyboard::FnRightShift.code() == 485,
        Keyboard::of_code_7(485) == Some(Keyboard::FnRightShift),
        Keyboard::BrlDot1.code() == 497,
        Keyboard::of_code_7(497) == Some(Keyboard::BrlDot1),
        Keyboard::BrlDot2.code() == 498,
        Keyboard::of_code_7(498) == Some(Keyboard::BrlDot2),
        Keyboard::BrlDot3.code() == 499,
        Keyboard::of_code_7(499) == Some(Keyboard::BrlDot3),
        Keyboard::BrlDot4.code() == 500,
        Keyboard::of_code_7(500) == Some(Keyboard::BrlDot4),
        Keyboard::BrlDot5.code() == 501,
        Keyboard::of_code_7(501) == Some(Keyboard::BrlDot5),
        Keyboard::BrlDot6.code() == 502,
        Keyboard::of_code_7(502) == Some(Keyboard::BrlDot6),
        Keyboard::BrlDot7.code() == 503,
        Keyboard::of_code_7(503) == Some(Keyboard::BrlDot7),
        Keyboard::BrlDot8.code() == 504,
        Keyboard::of_code_7(504) == Some(Keyboard::BrlDot8),
        Keyboard::BrlDot9.code() == 505,
        Keyboard::of_code_7(505) == Some(Keyboard::BrlDot9),
        Keyboard::BrlDot10.code() == 506,
        Keyboard::of_code_7(506) == Some(Keyboard::BrlDot10),
{
    reveal(Keyboard::code);
    reveal(Keyboard::of_code_7);
}

proof fn lemma_page_7_is_kept(code: u16)
    ensures
        Keyboard::of_code_7(code) matches Some(found) ==> found.code() == code
            && !crate::button::is_button_range(code),
{
    reveal(Keyboard::of_code_7);
    lemma_page_7();
}

proof fn lemma_page_8()
    ensures
        Keyboard::Numeric0.code() == 512,
        Keyboard::of_code_8(512) == Some(Keyboard::Numeric0),
        Keyboard::Numeric1.code() == 513,
        Keyboard::of_code_8(513) == Some(Keyboard::Numeric1),
        Keyboard::Numeric2.code() == 514,
        Keyboard::of_code_8(514) == Some(Keyboard::Numeric2),
        Keyboard::Numeric3.code() == 515,
        Keyboard::of_code_8(515) == Some(Keyboard::Numeric3),
        Keyboard::Numeric4.code() == 516,
        Keyboard::of_code_8(516) == Some(Keyboard::Numeric4),
        Keyboard::Numeric5.code() == 517,
        Keyboard::of_code_8(517) == Some(Keyboard::Numeric5),
        Keyboard::Numeric6.code() == 518,
        Keyboard::of_code_8(518) == Some(Keyboard::Numeric6),
        Keyboard::Numeric7.code() == 519,
        Keyboard::of_code_8(519) == Some(Keyboard::Numeric7),
        Keyboard::Numeric8.code() == 520,
        Keyboard::of_code_8(520) == Some(Keyboard::Numeric8),
        Keyboard::Numeric9.code() == 521,
        Keyboard::of_code_8(521) == Some(Keyboard::Numeric9),
        Keyboard::NumericStar.code() == 522,
        Keyboard::of_code_8(522) == Some(Keyboard::NumericStar),
        Keyboard::NumericPound.code() == 523,
        Keyboard::of_code_8(523) == Some(Keyboard::NumericPound),
        Keyboard::NumericA.code() == 524,
        Keyboard::of_code_8(524) == Some(Keyboard::NumericA),
        Keyboard::NumericB.code() == 525,
        Keyboard::of_code_8(525) == Some(Keyboard::NumericB),
        Keyboard::NumericC.code() == 526,
        Keyboard::of_code_8(526) == Some(Keyboard::NumericC),
        Keyboard::NumericD.code() == 527,
        Keyboard::of_code_8(527) == Some(Keyboard::NumericD),
        Keyboard::CameraFocus.code() == 528,
        Keyboard::of_code_8(528) == Some(Keyboard::CameraFocus),
        Keyboard::WpsButton.code() == 529,
        Keyboard::of_code_8(529) == Some(Keyboard::WpsButton),
        Keyboard::TouchpadToggle.code() == 530,
        Keyboard::of_code_8(530) == Some(Keyboard::TouchpadToggle),
        Keyboard::TouchpadOn.code() == 531,
        Keyboard::of_code_8(531) == Some(Keyboard::TouchpadOn),
        Keyboard::TouchpadOff.code() == 532,
        Keyboard::of_code_8(532) == Some(Keyboard::TouchpadOff),
        Keyboard::CameraZoomIn.code() == 533,
        Keyboard::of_code_8(533) == Some(Keyboard::CameraZoomIn),
        Keyboard::CameraZoomOut.code() == 534,
        Keyboard::of_code_8(534) == Some(Keyboard::CameraZoomOut),
        Keyboard::CameraUp.code() == 535,
        Keyboard::of_code_8(535) == Some(Keyboard::CameraUp),
        Keyboard::CameraDown.code() == 536,
        Keyboard::of_code_8(536) == Some(Keyboard::CameraDown),
        Keyboard::CameraLeft.code() == 537,
        Keyboard::of_code_8(537) == Some(Keyboard::CameraLeft),
        Keyboard::CameraRight.code() == 538,
        Keyboard::of_code_8(538) == Some(Keyboard::CameraRight),
        Keyboard::AttendantOn.code() == 539,
        Keyboard::of_code_8(539) == Some(Keyboard::AttendantOn),
        Keyboard::AttendantOff.code() == 540,
        Keyboard::of_code_8(540) == Some(Keyboard::AttendantOff),
        Keyboard::AttendantToggle.code() == 541,
        Keyboard::of_code_8(541) == Some(Keyboard::AttendantToggle),
        Keyboard::LightsToggle.code() == 542,
        Keyboard::of_code_8(542) == Some(Keyboard::LightsToggle),
        Keyboard::AlsToggle.code() == 560,
        Keyboard::of_code_8(560) == Some(Keyboard::AlsToggle),
        Keyboard::RotateLockToggle.code() == 561,
        Keyboard::of_code_8(561) == Some(Keyboard::RotateLockToggle),
        Keyboard::RefreshRateToggle.code() == 562,
        Keyboard::of_code_8(562) == Some(Keyboard::RefreshRateToggle),
{
    reveal(Keyboard::code);
    reveal(Keyboard::of_code_8);
}

proof fn lemma_page_8_is_kept(code: u16)
    ensures
        Keyboard::of_code_8(code) matches Some(found) ==> found.code() == code
            && !crate::button::is_button_range(code),
{
    reveal(Keyboard::of_code_8);
    lemma_page_8();
}

proof fn lemma_page_9()
    ensures
        Keyboard::ButtonConfig.code() == 576,
        Keyboard::of_code_9(576) == Some(Keyboard::ButtonConfig),
        Keyboard::TaskManager.code() == 577,
        Keyboard::of_code_9(577) == Some(Keyboard::TaskManager),
        Keyboard::Journal.code() == 578,
        Keyboard::of_code_9(578) == Some(Keyboard::Journal),
        Keyboard::ControlPanel.code() == 579,
        Keyboard::of_code_9(579) == Some(Keyboard::ControlPanel),
        Keyboard::AppSelect.code() == 580,
        Keyboard::of_code_9(580) == Some(Keyboard::AppSelect),
        Keyboard::ScreenSaver.code() == 581,
        Keyboard::of_code_9(581) == Some(Keyboard::ScreenSaver),
        Keyboard::VoiceCommand.code() == 582,
        Keyboard::of_code_9(582) == Some(Keyboard::VoiceCommand),
        Keyboard::Assistant.code() == 583,
        Keyboard::of_code_9(583) == Some(Keyboard::Assistant),
        Keyboard::KbdLayoutNext.code() == 584,
        Keyboard::of_code_9(584) == Some(Keyboard::KbdLayoutNext),
        Keyboard::EmojiPicker.code() == 585,
        Keyboard::of_code_9(585) == Some(Keyboard::EmojiPicker),
        Keyboard::Dictate.code() == 586,
        Keyboard::of_code_9(586) == Some(Keyboard::Dictate),
        Keyboard::BrightnessMin.code() == 592,
        Keyboard::of_code_9(592) == Some(Keyboard::BrightnessMin),
        Keyboard::BrightnessMax.code() == 593,
        Keyboard::of_code_9(593) == Some(Keyboard::BrightnessMax),
        Keyboard::KbdInputAssistPrev.code() == 608,
        Keyboard::of_code_9(608) == Some(Keyboard::KbdInputAssistPrev),
        Keyboard::KbdInputAssistNext.code() == 609,
        Keyboard::of_code_9(609) == Some(Keyboard::KbdInputAssistNext),
        Keyboard::KbdInputAssistPrevGroup.code() == 610,
        Keyboard::of_code_9(610) == Some(Keyboard::KbdInputAssistPrevGroup),
        Keyboard::KbdInputAssistNextGroup.code() == 611,
        Keyboard::of_code_9(611) == Some(Keyboard::KbdInputAssistNextGroup),
        Keyboard::KbdInputAssistAccept.code() == 612,
        Keyboard::of_code_9(612) == Some(Keyboard::KbdInputAssistAccept),
        Keyboard::KbdInputAssistCancel.code() == 613,
        Keyboard::of_code_9(613) == Some(Keyboard::KbdInputAssistCancel),
        Keyboard::RightUp.code() == 614,
        Keyboard::of_code_9(614) == Some(Keyboard::RightUp),
        Keyboard::RightDown.code() == 615,
        Keyboard::of_code_9(615) == Some(Keyboard::RightDown),
        Keyboard::LeftUp.code() == 616,
        Keyboard::of_code_9(616) == Some(Keyboard::LeftUp),
        Keyboard::LeftDown.code() == 617,
        Keyboard::of_code_9(617) == Some(Keyboard::LeftDown),
        Keyboard::RootMenu.code() == 618,
        Keyboard::of_code_9(618) == Some(Keyboard::RootMenu),
        Keyboard::MediaTopMenu.code() == 619,
        Keyboard::of_code_9(619) == Some(Keyboard::MediaTopMenu),
        Keyboard::Numeric11.code() == 620,
        Keyboard::of_code_9(620) == Some(Keyboard::Numeric11),
        Keyboard::Numeric12.code() == 621,
        Keyboard::of_code_9(621) == Some(Keyboard::Numeric12),
        Keyboard::AudioDesc.code() == 622,
        Keyboard::of_code_9(622) == Some(Keyboard::AudioDesc),
        Keyboard::ThreeDMode.code() == 623,
        Keyboard::of_code_9(623) == Some(Keyboard::ThreeDMode),
        Keyboard::NextFavorite.code() == 624,
        Keyboard::of_code_9(624) == Some(Keyboard::NextFavorite),
        Keyboard::StopRecord.code() == 625,
        Keyboard::of_code_9(625) == Some(Keyboard::StopRecord),
        Keyboard::PauseRecord.code() == 626,
        Keyboard::of_code_9(626) == Some(Keyboard::PauseRecord),
        Keyboard::Vod.code() == 627,
        Keyboard::of_code_9(627) == Some(Keyboard::Vod),
        Keyboard::Unmute.code() == 628,
        Keyboard::of_code_9(628) == Some(Keyboard::Unmute),
        Keyboard::FastReverse.code() == 629,
        Keyboard::of_code_9(629) == Some(Keyboard::FastReverse),
        Keyboard::SlowReverse.code() == 630,
        Keyboard::of_code_9(630) == Some(Keyboard::SlowReverse),
        Keyboard::Data.code() == 631,
        Keyboard::of_code_9(631) == Some(Keyboard::Data),
        Keyboard::OnScreenKeyboard.code() == 632,
        Keyboard::of_code_9(632) == Some(Keyboard::OnScreenKeyboard),
        Keyboard::PrivacyScreenToggle.code() == 633,
        Keyboard::of_code_9(633) == Some(Keyboard::PrivacyScreenToggle),
        Keyboard::SelectiveScreenshot.code() == 634,
        Keyboard::of_code_9(634) == Some(Keyboard::SelectiveScreenshot),
        Keyboard::NextElement.code() == 635,
        Keyboard::of_code_9(635) == Some(Keyboard::NextElement),
        Keyboard::PreviousElement.code() == 636,
        Keyboard::of_code_9(636) == Some(Keyboard::PreviousElement),
        Keyboard::AutopilotEngageToggle.code() == 637,
        Keyboard::of_code_9(637) == Some(Keyboard::AutopilotEngageToggle),
        Keyboard::MarkWaypoint.code() == 638,
        Keyboard::of_code_9(638) == Some(Keyboard::MarkWaypoint),
        Keyboard::Sos.code() == 639,
        Keyboard::of_code_9(639) == Some(Keyboard::Sos),
{
    reveal(Keyboard::code);
    reveal(Keyboard::of_code_9);
}

proof fn lemma_page_9_is_kept(code: u16)
    ensures
        Keyboard::of_code_9(code) matches Some(found) ==> found.code() == code
            && !crate::button::is_button_range(code),
{
    reveal(Keyboard::of_code_9);
    lemma_page_9();
}

proof fn lemma_page_10()
    ensures
        Keyboard::NavChart.code() == 640,
        Keyboard::of_code_10(640) == Some(Keyboard::NavChart),
        Keyboard::FishingChart.code() == 641,
        Keyboard::of_code_10(641) == Some(Keyboard::FishingChart),
        Keyboard::SingleRangeRadar.code() == 642,
        Keyboard::of_code_10(642) == Some(Keyboard::SingleRangeRadar),
        Keyboard::DualRangeRadar.code() == 643,
        Keyboard::of_code_10(643) == Some(Keyboard::DualRangeRadar),
        Keyboard::RadarOverlay.code() == 644,
        Keyboard::of_code_10(644) == Some(Keyboard::RadarOverlay),
        Keyboard::TraditionalSonar.code() == 645,
        Keyboard::of_code_10(645) == Some(Keyboard::TraditionalSonar),
        Keyboard::ClearvuSonar.code() == 646,
        Keyboard::of_code_10(646) == Some(Keyboard::ClearvuSonar),
        Keyboard::SidevuSonar.code() == 647,
        Keyboard::of_code_10(647) == Some(Keyboard::SidevuSonar),
        Keyboard::NavInfo.code() == 648,
        Keyboard::of_code_10(648) == Some(Keyboard::NavInfo),
        Keyboard::BrightnessMenu.code() == 649,
        Keyboard::of_code_10(649) == Some(Keyboard::BrightnessMenu),
        Keyboard::Macro1.code() == 656,
        Keyboard::of_code_10(656) == Some(Keyboard::Macro1),
        Keyboard::Macro2.code() == 657,
        Keyboard::of_code_10(657) == Some(Keyboard::Macro2),
        Keyboard::Macro3.code() == 658,
        Keyboard::of_code_10(658) == Some(Keyboard::Macro3),
        Keyboard::Macro4.code() == 659,
        Keyboard::of_code_10(659) == Some(Keyboard::Macro4),
        Keyboard::Macro5.code() == 660,
        Keyboard::of_code_10(660) == Some(Keyboard::Macro5),
        Keyboard::Macro6.code() == 661,
        Keyboard::of_code_10(661) == Some(Keyboard::Macro6),
        Keyboard::Macro7.code() == 662,
        Keyboard::of_code_10(662) == Some(Keyboard::Macro7),
        Keyboard::Macro8.code() == 663,
        Keyboard::of_code_10(663) == Some(Keyboard::Macro8),
        Keyboard::Macro9.code() == 664,
        Keyboard::of_code_10(664) == Some(Keyboard::Macro9),
        Keyboard::Macro10.code() == 665,
        Keyboard::of_code_10(665) == Some(Keyboard::Macro10),
        Keyboard::Macro11.code() == 666,
        Keyboard::of_code_10(666) == Some(Keyboard::Macro11),
        Keyboard::Macro12.code() == 667,
        Keyboard::of_code_10(667) == Some(Keyboard::Macro12),
        Keyboard::Macro13.code() == 668,
        Keyboard::of_code_10(668) == Some(Keyboard::Macro13),
        Keyboard::Macro14.code() == 669,
        Keyboard::of_code_10(669) == Some(Keyboard::Macro14),
        Keyboard::Macro15.code() == 670,
        Keyboard::of_code_10(670) == Some(Keyboard::Macro15),
        Keyboard::Macro16.code() == 671,
        Keyboard::of_code_10(671) == Some(Keyboard::Macro16),
        Keyboard::Macro17.code() == 672,
        Keyboard::of_code_10(672) == Some(Keyboard::Macro17),
        Keyboard::Macro18.code() == 673,
        Keyboard::of_code_10(673) == Some(Keyboard::Macro18),
        Keyboard::Macro19.code() == 674,
        Keyboard::of_code_10(674) == Some(Keyboard::Macro19),
        Keyboard::Macro20.code() == 675,
        Keyboard::of_code_10(675) == Some(Keyboard::Macro20),
        Keyboard::Macro21.code() == 676,
        Keyboard::of_code_10(676) == Some(Keyboard::Macro21),
        Keyboard::Macro22.code() == 677,
        Keyboard::of_code_10(677) == Some(Keyboard::Macro22),
        Keyboard::Macro23.code() == 678,
        Keyboard::of_code_10(678) == Some(Keyboard::Macro23),
        Keyboard::Macro24.code() == 679,
        Keyboard::of_code_10(679) == Some(Keyboard::Macro24),
        Keyboard::Macro25.code() == 680,
        Keyboard::of_code_10(680) == Some(Keyboard::Macro25),
        Keyboard::Macro26.code() == 681,
        Keyboard::of_code_10(681) == Some(Keyboard::Macro26),
        Keyboard::Macro27.code() == 682,
        Keyboard::of_code_10(682) == Some(Keyboard::Macro27),
        Keyboard::Macro28.code() == 683,
        Keyboard::of_code_10(683) == Some(Keyboard::Macro28),
        Keyboard::Macro29.code() == 684,
        Keyboard::of_code_10(684) == Some(Keyboard::Macro29),
        Keyboard::Macro30.code() == 685,
        Keyboard::of_code_10(685) == Some(Keyboard::Macro30),
        Keyboard::MacroRecordStart.code() == 688,
        Keyboard::of_code_10(688) == Some(Keyboard::MacroRecordStart),
        Keyboard::MacroRecordStop.code() == 689,
        Keyboard::of_code_10(689) == Some(Keyboard::MacroRecordStop),
        Keyboard::MacroPresetCycle.code() == 690,
        Keyboard::of_code_10(690) == Some(Keyboard::MacroPresetCycle),
        Keyboard::MacroPreset1.code() == 691,
        Keyboard::of_code_10(691) == Some(Keyboard::MacroPreset1),
        Keyboard::MacroPreset2.code() == 692,
        Keyboard::of_code_10(692) == Some(Keyboard::MacroPreset2),
        Keyboard::MacroPreset3.code() == 693,
        Keyboard::of_code_10(693) == Some(Keyboard::MacroPreset3),
        Keyboard::KbdLcdMenu1.code() == 696,
        Keyboard::of_code_10(696) == Some(Keyboard::KbdLcdMenu1),
        Keyboard::KbdLcdMenu2.code() == 697,
        Keyboard::of_code_10(697) == Some(Keyboard::KbdLcdMenu2),
        Keyboard::KbdLcdMenu3.code() == 698,
        Keyboard::of_code_10(698) == Some(Keyboard::KbdLcdMenu3),
        Keyboard::KbdLcdMenu4.code() == 699,
        Keyboard::of_code_10(699) == Some(Keyboard::KbdLcdMenu4),
        Keyboard::KbdLcdMenu5.code() == 700,
        Keyboard::of_code_10(700) == Some(Keyboard::KbdLcdMenu5),
{
    reveal(Keyboard::code);
    reveal(Keyboard::of_code_10);
}

proof fn lemma_page_10_is_kept(code: u16)
    ensures
        Keyboard::of_code_10(code) matches Some(found) ==> found.code() == code
            && !crate::button::is_button_range(code),
{
    reveal(Keyboard::of_code_10);
    lemma_page_10();
}

/// A code names exactly the key whose code it is.
pub proof fn keyboard_codes_round_trip(key: Keyboard)
    ensures
        Keyboard::of_code(key.code()) == Some(key),
{
    match key {
        Keyboard::Reserved
        | Keyboard::Esc
        | Keyboard::Num1
        | Keyboard::Num2
        | Keyboard::Num3
        | Keyboard::Num4
        | Keyboard::Num5
        | Keyboard::Num6
        | Keyboard::Num7
        | Keyboard::Num8
        | Keyboard::Num9
        | Keyboard::Num0
        | Keyboard::Minus
        | Keyboard::Equal
        | Keyboard::Backspace
        | Keyboard::Tab
        | Keyboard::Q
        | Keyboard::W
        | Keyboard::E
        | Keyboard::R
        | Keyboard::T
        | Keyboard::Y
        | Keyboard::U
        | Keyboard::I
        | Keyboard::O
        | Keyboard::P
        | Keyboard::LeftBrace
        | Keyboard::RightBrace
        | Keyboard::Enter
        | Keyboard::LeftCtrl
        | Keyboard::A
        | Keyboard::S
        | Keyboard::D
        | Keyboard::F
        | Keyboard::G
        | Keyboard::H
        | Keyboard::J
        | Keyboard::K
        | Keyboard::L
        | Keyboard::Semicolon
        | Keyboard::Apostrophe
        | Keyboard::Grave
        | Keyboard::LeftShift
        | Keyboard::Backslash
        | Keyboard::Z
        | Keyboard::X
        | Keyboard::C
        | Keyboard::V
        | Keyboard::B
        | Keyboard::N
        | Keyboard::M
        | Keyboard::Comma
        | Keyboard::Dot
        | Keyboard::Slash
        | Keyboard::RightShift
        | Keyboard::KpAsterisk
        | Keyboard::LeftAlt
        | Keyboard::Space
        | Keyboard::CapsLock
        | Keyboard::F1
        | Keyboard::F2
        | Keyboard::F3
        | Keyboard::F4
        | Keyboard::F5 => {
            lemma_page_0();
        },
        Keyboard::F6
        | Keyboard::F7
        | Keyboard::F8
        | Keyboard::F9
        | Keyboard::F10
        | Keyboard::NumLock
        | Keyboard::ScrollLock
        | Keyboard::Kp7
        | Keyboard::Kp8
        | Keyboard::Kp9
        | Keyboard::KpMinus
        | Keyboard::Kp4
        | Keyboard::Kp5
        | Keyboard::Kp6
        | Keyboard::KpPlus
        | Keyboard::Kp1
        | Keyboard::Kp2
        | Keyboard::Kp3
        | Keyboard::Kp0
        | Keyboard::KpDot
        | Keyboard::ZenkakuHankaku
        | Keyboard::NonUsBackslash
        | Keyboard::F11
        | Keyboard::F12
        | Keyboard::Ro
        | Keyboard::Katakana
        | Keyboard::Hiragana
        | Keyboard::Henkan
        | Keyboard::KatakanaHiragana
        | Keyboard::Muhenkan
        | Keyboard::KpJpComma
        | Keyboard::KpEnter
        | Keyboard::RightCtrl
        | Keyboard::KpSlash
        | Keyboard::SysRq
        | Keyboard::RightAlt
        | Keyboard::LineFeed
        | Keyboard::Home
        | Keyboard::Up
        | Keyboard::PageUp
        | Keyboard::Left
        | Keyboard::Right
        | Keyboard::End
        | Keyboard::Down
        | Keyboard::PageDown
        | Keyboard::Insert
        | Keyboard::Delete
        | Keyboard::Macro
        | Keyboard::Mute
        | Keyboard::VolumeDown
        | Keyboard::VolumeUp
        | Keyboard::Power
        | Keyboard::KpEqual
        | Keyboard::KpPlusMinus
        | Keyboard::Pause
        | Keyboard::Scale
        | Keyboard::KpComma
        | Keyboard::Hangeul
        | Keyboard::Hanja
        | Keyboard::Yen
        | Keyboard::LeftMeta
        | Keyboard::RightMeta
        | Keyboard::Compose => {
            lemma_page_1();
        },
        Keyboard::Stop
        | Keyboard::Again
        | Keyboard::Props
        | Keyboard::Undo
        | Keyboard::Front
        | Keyboard::Copy
        | Keyboard::Open
        | Keyboard::Paste
        | Keyboard::Find
        | Keyboard::Cut
        | Keyboard::Help
        | Keyboard::Menu
        | Keyboard::Calc
        | Keyboard::Setup
        | Keyboard::Sleep
        | Keyboard::WakeUp
        | Keyboard::File
        | Keyboard::SendFile
        | Keyboard::DeleteFile
        | Keyboard::Xfer
        | Keyboard::Prog1
        | Keyboard::Prog2
        | Keyboard::Www
        | Keyboard::MsDos
        | Keyboard::Coffee
        | Keyboard::RotateDisplay
        | Keyboard::CycleWindows
        | Keyboard::Mail
        | Keyboard::Bookmarks
        | Keyboard::Computer
        | Keyboard::Back
        | Keyboard::Forward
        | Keyboard::CloseCd
        | Keyboard::EjectCd
        | Keyboard::EjectCloseCd
        | Keyboard::NextSong
        | Keyboard::PlayPause
        | Keyboard::PreviousSong
        | Keyboard::StopCd
        | Keyboard::Record
        | Keyboard::Rewind
        | Keyboard::Phone
        | Keyboard::Iso
        | Keyboard::Config
        | Keyboard::HomePage
        | Keyboard::Refresh
        | Keyboard::Exit
        | Keyboard::Move
        | Keyboard::Edit
        | Keyboard::ScrollUp
        | Keyboard::ScrollDown
        | Keyboard::KpLeftParen
        | Keyboard::KpRightParen
        | Keyboard::New
        | Keyboard::Redo
        | Keyboard::F13
        | Keyboard::F14
        | Keyboard::F15
        | Keyboard::F16
        | Keyboard::F17
        | Keyboard::F18
        | Keyboard::F19
        | Keyboard::F20
        | Keyboard::F21 => {
            lemma_page_2();
        },
        Keyboard::F22
        | Keyboard::F23
        | Keyboard::F24
        | Keyboard::PlayCd
        | Keyboard::PauseCd
        | Keyboard::Prog3
        | Keyboard::Prog4
        | Keyboard::AllApplications
        | Keyboard::Suspend
        | Keyboard::Close
        | Keyboard::Play
        | Keyboard::FastForward
        | Keyboard::BassBoost
        | Keyboard::Print
        | Keyboard::Hp
        | Keyboard::Camera
        | Keyboard::Sound
        | Keyboard::Question
        | Keyboard::Email
        | Keyboard::Chat
        | Keyboard::Search
        | Keyboard::Connect
        | Keyboard::Finance
        | Keyboard::Sport
        | Keyboard::Shop
        | Keyboard::AltErase
        | Keyboard::Cancel
        | Keyboard::BrightnessDown
        | Keyboard::BrightnessUp
        | Keyboard::Media
        | Keyboard::SwitchVideoMode
        | Keyboard::KbdIllumToggle
        | Keyboard::KbdIllumDown
        | Keyboard::KbdIllumUp
        | Keyboard::Send
        | Keyboard::Reply
        | Keyboard::ForwardMail
        | Keyboard::Save
        | Keyboard::Documents
        | Keyboard::Battery
        | Keyboard::Bluetooth
        | Keyboard::Wlan
        | Keyboard::Uwb
        | Keyboard::Unknown
        | Keyboard::VideoNext
        | Keyboard::VideoPrev
        | Keyboard::BrightnessCycle
        | Keyboard::BrightnessAuto
        | Keyboard::DisplayOff
        | Keyboard::Wwan
        | Keyboard::Rfkill
        | Keyboard::MicMute => {
            lemma_page_3();
        },
        Keyboard::OkKey
        | Keyboard::Select
        | Keyboard::Goto
        | Keyboard::Clear
        | Keyboard::Power2
        | Keyboard::OptionKey
        | Keyboard::Info
        | Keyboard::Time
        | Keyboard::Vendor
        | Keyboard::Archive
        | Keyboard::Program
        | Keyboard::Channel
        | Keyboard::Favorites
        | Keyboard::Epg
        | Keyboard::Pvr
        | Keyboard::Mhp
        | Keyboard::Language
        | Keyboard::Title
        | Keyboard::Subtitle
        | Keyboard::Angle
        | Keyboard::FullScreen
        | Keyboard::Mode
        | Keyboard::Keyboard
        | Keyboard::AspectRatio
        | Keyboard::Pc
        | Keyboard::Tv
        | Keyboard::Tv2
        | Keyboard::Vcr
        | Keyboard::Vcr2
        | Keyboard::Sat
        | Keyboard::Sat2
        | Keyboard::Cd => {
            lemma_page_5();
        },
        Keyboard::Tape
        | Keyboard::Radio
        | Keyboard::Tuner
        | Keyboard::Player
        | Keyboard::Text
        | Keyboard::Dvd
        | Keyboard::Aux
        | Keyboard::Mp3
        | Keyboard::Audio
        | Keyboard::Video
        | Keyboard::Directory
        | Keyboard::List
        | Keyboard::Memo
        | Keyboard::Calendar
        | Keyboard::Red
        | Keyboard::Green
        | Keyboard::Yellow
        | Keyboard::Blue
        | Keyboard::ChannelUp
        | Keyboard::ChannelDown
        | Keyboard::First
        | Keyboard::Last
        | Keyboard::Ab
        | Keyboard::Next
        | Keyboard::Restart
        | Keyboard::Slow
        | Keyboard::Shuffle
        | Keyboard::Break
        | Keyboard::Previous
        | Keyboard::Digits
        | Keyboard::Teen
        | Keyboard::Twen
        | Keyboard::VideoPhone
        | Keyboard::Games
        | Keyboard::ZoomIn
        | Keyboard::ZoomOut
        | Keyboard::ZoomReset
        | Keyboard::WordProcessor
        | Keyboard::Editor
        | Keyboard::Spreadsheet
        | Keyboard::GraphicsEditor
        | Keyboard::Presentation
        | Keyboard::Database
        | Keyboard::News
        | Keyboard::VoiceMail
        | Keyboard::AddressBook
        | Keyboard::Messenger
        | Keyboard::DisplayToggle
        | Keyboard::SpellCheck
        | Keyboard::LogOff
        | Keyboard::Dollar
        | Keyboard::Euro
        | Keyboard::FrameBack
        | Keyboard::FrameForward
        | Keyboard::ContextMenu
        | Keyboard::MediaRepeat
        | Keyboard::TenChannelsUp
        | Keyboard::TenChannelsDown
        | Keyboard::Images
        | Keyboard::NotificationCenter
        | Keyboard::PickupPhone
        | Keyboard::HangupPhone
        | Keyboard::LinkPhone => {
            lemma_page_6();
        },
        Keyboard::DelEol
        | Keyboard::DelEos
        | Keyboard::InsLine
        | Keyboard::DelLine
        | Keyboard::Fn
        | Keyboard::FnEsc
        | Keyboard::FnF1
        | Keyboard::FnF2
        | Keyboard::FnF3
        | Keyboard::FnF4
        | Keyboard::FnF5
        | Keyboard::FnF6
        | Keyboard::FnF7
        | Keyboard::FnF8
        | Keyboard::FnF9
        | Keyboard::FnF10
        | Keyboard::FnF11
        | Keyboard::FnF12
        | Keyboard::Fn1
        | Keyboard::Fn2
        | Keyboard::FnD
        | Keyboard::FnE
        | Keyboard::FnF
        | Keyboard::FnS
        | Keyboard::FnB
        | Keyboard::FnRightShift
        | Keyboard::BrlDot1
        | Keyboard::BrlDot2
        | Keyboard::BrlDot3
        | Keyboard::BrlDot4
        | Keyboard::BrlDot5
        | Keyboard::BrlDot6
        | Keyboard::BrlDot7
        | Keyboard::BrlDot8
        | Keyboard::BrlDot9
        | Keyboard::BrlDot10 => {
            lemma_page_7();
        },
        Keyboard::Numeric0
        | Keyboard::Numeric1
        | Keyboard::Numeric2
        | Keyboard::Numeric3
        | Keyboard::Numeric4
        | Keyboard::Numeric5
        | Keyboard::Numeric6
        | Keyboard::Numeric7
        | Keyboard::Numeric8
        | Keyboard::Numeric9
        | Keyboard::NumericStar
        | Keyboard::NumericPound
        | Keyboard::NumericA
        | Keyboard::NumericB
        | Keyboard::NumericC
        | Keyboard::NumericD
        | Keyboard::CameraFocus
        | Keyboard::WpsButton
        | Keyboard::TouchpadToggle
        | Keyboard::TouchpadOn
        | Keyboard::TouchpadOff
        | Keyboard::CameraZoomIn
        | Keyboard::CameraZoomOut
        | Keyboard::CameraUp
        | Keyboard::CameraDown
        | Keyboard::CameraLeft
        | Keyboard::CameraRight
        | Keyboard::AttendantOn
        | Keyboard::AttendantOff
        | Keyboard::AttendantToggle
        | Keyboard::LightsToggle
        | Keyboard::AlsToggle
        | Keyboard::RotateLockToggle
        | Keyboard::RefreshRateToggle => {
            lemma_page_8();
        },
        Keyboard::ButtonConfig
        | Keyboard::TaskManager
        | Keyboard::Journal
        | Keyboard::ControlPanel
        | Keyboard::AppSelect
        | Keyboard::ScreenSaver
        | Keyboard::VoiceCommand
        | Keyboard::Assistant
        | Keyboard::KbdLayoutNext
        | Keyboard::EmojiPicker
        | Keyboard::Dictate
        | Keyboard::BrightnessMin
        | Keyboard::BrightnessMax
        | Keyboard::KbdInputAssistPrev
        | Keyboard::KbdInputAssistNext
        | Keyboard::KbdInputAssistPrevGroup
        | Keyboard::KbdInputAssistNextGroup
        | Keyboard::KbdInputAssistAccept
        | Keyboard::KbdInputAssistCancel
        | Keyboard::RightUp
        | Keyboard::RightDown
        | Keyboard::LeftUp
        | Keyboard::LeftDown
        | Keyboard::RootMenu
        | Keyboard::MediaTopMenu
        | Keyboard::Numeric11
        | Keyboard::Numeric12
        | Keyboard::AudioDesc
        | Keyboard::ThreeDMode
        | Keyboard::NextFavorite
        | Keyboard::StopRecord
        | Keyboard::PauseRecord
        | Keyboard::Vod
        | Keyboard::Unmute
        | Keyboard::FastReverse
        | Keyboard::SlowReverse
        | Keyboard::Data
        | Keyboard::OnScreenKeyboard
        | Keyboard::PrivacyScreenToggle
        | Keyboard::SelectiveScreenshot
        | Keyboard::NextElement
        | Keyboard::PreviousElement
        | Keyboard::AutopilotEngageToggle
        | Keyboard::MarkWaypoint
        | Keyboard::Sos => {
            lemma_page_9();
        },
        Keyboard::NavChart
        | Keyboard::FishingChart
        | Keyboard::SingleRangeRadar
        | Keyboard::DualRangeRadar
        | Keyboard::RadarOverlay
        | Keyboard::TraditionalSonar
        | Keyboard::ClearvuSonar
        | Keyboard::SidevuSonar
        | Keyboard::NavInfo
        | Keyboard::BrightnessMenu
        | Keyboard::Macro1
        | Keyboard::Macro2
        | Keyboard::Macro3
        | Keyboard::Macro4
        | Keyboard::Macro5
        | Keyboard::Macro6
        | Keyboard::Macro7
        | Keyboard::Macro8
        | Keyboard::Macro9
        | Keyboard::Macro10
        | Keyboard::Macro11
        | Keyboard::Macro12
        | Keyboard::Macro13
        | Keyboard::Macro14
        | Keyboard::Macro15
        | Keyboard::Macro16
        | Keyboard::Macro17
        | Keyboard::Macro18
        | Keyboard::Macro19
        | Keyboard::Macro20
        | Keyboard::Macro21
        | Keyboard::Macro22
        | Keyboard::Macro23
        | Keyboard::Macro24
        | Keyboard::Macro25
        | Keyboard::Macro26
        | Keyboard::Macro27
        | Keyboard::Macro28
        | Keyboard::Macro29
        | Keyboard::Macro30
        | Keyboard::MacroRecordStart
        | Keyboard::MacroRecordStop
        | Keyboard::MacroPresetCycle
        | Keyboard::MacroPreset1
        | Keyboard::MacroPreset2
        | Keyboard::MacroPreset3
        | Keyboard::KbdLcdMenu1
        | Keyboard::KbdLcdMenu2
        | Keyboard::KbdLcdMenu3
        | Keyboard::KbdLcdMenu4
        | Keyboard::KbdLcdMenu5 => {
            lemma_page_10();
        },
    }
}

/// A code that names a key is the code of that key, and lies outside the ranges set
/// aside for buttons.
pub proof fn keyboard_code_is_kept(code: u16)
    ensures
        Keyboard::of_code(code) matches Some(found) ==> found.code() == code
            && !crate::button::is_button_range(code),
{
    if code < 64 {
        lemma_page_0_is_kept(code);
    } else if code < 128 {
        lemma_page_1_is_kept(code);
    } else if code < 192 {
        lemma_page_2_is_kept(code);
    } else if code < 256 {
        lemma_page_3_is_kept(code);
    } else if code < 384 {
        lemma_page_5_is_kept(code);
    } else if code < 448 {
        lemma_page_6_is_kept(code);
    } else if code < 512 {
        lemma_page_7_is_kept(code);
    } else if code < 576 {
        lemma_page_8_is_kept(code);
    } else if code < 640 {
        lemma_page_9_is_kept(code);
    } else {
        lemma_page_10_is_kept(code);
    }
}

} // verus!
