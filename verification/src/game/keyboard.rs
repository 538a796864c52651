//! Keyboard keys and sets of held keys.

use vstd::prelude::*;

verus! {

/// Number of keys in the canonical ordering.
pub const KEY_COUNT: usize = 161;

/// A key of the keyboard. The order of declaration is the canonical
/// ordering: a key travels over the wire as its position in this list.
#[derive(Clone, Copy, Debug, PartialEq, Eq, Hash, Structural)]
pub enum KeyCode {
    Key1,
    Key2,
    Key3,
    Key4,
    Key5,
    Key6,
    Key7,
    Key8,
    Key9,
    Key0,
    A,
    B,
    C,
    D,
    E,
    F,
    G,
    H,
    I,
    J,
    K,
    L,
    M,
    N,
    O,
    P,
    Q,
    R,
    S,
    T,
    U,
    V,
    W,
    X,
    Y,
    Z,
    Escape,
    F1,
    F2,
    F3,
    F4,
    F5,
    F6,
    F7,
    F8,
    F9,
    F10,
    F11,
    F12,
    F13,
    F14,
    F15,
    F16,
    F17,
    F18,
    F19,
    F20,
    F21,
    F22,
    F23,
    F24,
    Snapshot,
    Scroll,
    Pause,
    Insert,
    Home,
    Delete,
    End,
    PageDown,
    PageUp,
    Left,
    Up,
    Right,
    Down,
    Back,
    Return,
    Space,
    Compose,
    Caret,
    Numlock,
    Numpad0,
    Numpad1,
    Numpad2,
    Numpad3,
    Numpad4,
    Numpad5,
    Numpad6,
    Numpad7,
    Numpad8,
    Numpad9,
    AbntC1,
    AbntC2,
    Add,
    Apostrophe,
    Apps,
    At,
    Ax,
    Backslash,
    Calculator,
    Capital,
    Colon,
    Comma,
    Convert,
    Decimal,
    Divide,
    Equals,
    Grave,
    Kana,
    Kanji,
    LAlt,
    LBracket,
    LControl,
    LShift,
    LWin,
    Mail,
    MediaSelect,
    MediaStop,
    Minus,
    Multiply,
    Mute,
    MyComputer,
    NavigateForward,
    NavigateBackward,
    NextTrack,
    NoConvert,
    NumpadComma,
    NumpadEnter,
    NumpadEquals,
    OEM102,
    Period,
    PlayPause,
    Power,
    PrevTrack,
    RAlt,
    RBracket,
    RControl,
    RShift,
    RWin,
    Semicolon,
    Slash,
    Sleep,
    Stop,
    Subtract,
    Sysrq,
    Tab,
    Underline,
    Unlabeled,
    VolumeDown,
    VolumeUp,
    Wake,
    WebBack,
    WebFavorites,
    WebForward,
    WebHome,
    WebRefresh,
    WebSearch,
    WebStop,
    Yen,
    Copy,
    Paste,
    Cut,
}

/// Position of a key in the canonical ordering.
pub open spec fn spec_key_index(key: KeyCode) -> usize {
    match key {
        KeyCode::Key1 => 0,
        KeyCode::Key2 => 1,
        KeyCode::Key3 => 2,
        KeyCode::Key4 => 3,
        KeyCode::Key5 => 4,
        KeyCode::Key6 => 5,
        KeyCode::Key7 => 6,
        KeyCode::Key8 => 7,
        KeyCode::Key9 => 8,
        KeyCode::Key0 => 9,
        KeyCode::A => 10,
        KeyCode::B => 11,
        KeyCode::C => 12,
        KeyCode::D => 13,
        KeyCode::E => 14,
        KeyCode::F => 15,
        KeyCode::G => 16,
        KeyCode::H => 17,
        KeyCode::I => 18,
        KeyCode::J => 19,
        KeyCode::K => 20,
        KeyCode::L => 21,
        KeyCode::M => 22,
        KeyCode::N => 23,
        KeyCode::O => 24,
        KeyCode::P => 25,
        KeyCode::Q => 26,
        KeyCode::R => 27,
        KeyCode::S => 28,
        KeyCode::T => 29,
        KeyCode::U => 30,
        KeyCode::V => 31,
        KeyCode::W => 32,
        KeyCode::X => 33,
        KeyCode::Y => 34,
        KeyCode::Z => 35,
        KeyCode::Escape => 36,
        KeyCode::F1 => 37,
        KeyCode::F2 => 38,
        KeyCode::F3 => 39,
        KeyCode::F4 => 40,
        KeyCode::F5 => 41,
        KeyCode::F6 => 42,
        KeyCode::F7 => 43,
        KeyCode::F8 => 44,
        KeyCode::F9 => 45,
        KeyCode::F10 => 46,
        KeyCode::F11 => 47,
        KeyCode::F12 => 48,
        KeyCode::F13 => 49,
        KeyCode::F14 => 50,
        KeyCode::F15 => 51,
        KeyCode::F16 => 52,
        KeyCode::F17 => 53,
        KeyCode::F18 => 54,
        KeyCode::F19 => 55,
        KeyCode::F20 => 56,
        KeyCode::F21 => 57,
        KeyCode::F22 => 58,
        KeyCode::F23 => 59,
        KeyCode::F24 => 60,
        KeyCode::Snapshot => 61,
        KeyCode::Scroll => 62,
        KeyCode::Pause => 63,
        KeyCode::Insert => 64,
        KeyCode::Home => 65,
        KeyCode::Delete => 66,
        KeyCode::End => 67,
        KeyCode::PageDown => 68,
        KeyCode::PageUp => 69,
        KeyCode::Left => 70,
        KeyCode::Up => 71,
        KeyCode::Right => 72,
        KeyCode::Down => 73,
        KeyCode::Back => 74,
        KeyCode::Return => 75,
        KeyCode::Space => 76,
        KeyCode::Compose => 77,
        KeyCode::Caret => 78,
        KeyCode::Numlock => 79,
        KeyCode::Numpad0 => 80,
        KeyCode::Numpad1 => 81,
        KeyCode::Numpad2 => 82,
        KeyCode::Numpad3 => 83,
        KeyCode::Numpad4 => 84,
        KeyCode::Numpad5 => 85,
        KeyCode::Numpad6 => 86,
        KeyCode::Numpad7 => 87,
        KeyCode::Numpad8 => 88,
        KeyCode::Numpad9 => 89,
        KeyCode::AbntC1 => 90,
        KeyCode::AbntC2 => 91,
        KeyCode::Add => 92,
        KeyCode::Apostrophe => 93,
        KeyCode::Apps => 94,
        KeyCode::At => 95,
        KeyCode::Ax => 96,
        KeyCode::Backslash => 97,
        KeyCode::Calculator => 98,
        KeyCode::Capital => 99,
        KeyCode::Colon => 100,
        KeyCode::Comma => 101,
        KeyCode::Convert => 102,
        KeyCode::Decimal => 103,
        KeyCode::Divide => 104,
        KeyCode::Equals => 105,
        KeyCode::Grave => 106,
        KeyCode::Kana => 107,
        KeyCode::Kanji => 108,
        KeyCode::LAlt => 109,
        KeyCode::LBracket => 110,
        KeyCode::LControl => 111,
        KeyCode::LShift => 112,
        KeyCode::LWin => 113,
        KeyCode::Mail => 114,
        KeyCode::MediaSelect => 115,
        KeyCode::MediaStop => 116,
        KeyCode::Minus => 117,
        KeyCode::Multiply => 118,
        KeyCode::Mute => 119,
        KeyCode::MyComputer => 120,
        KeyCode::NavigateForward => 121,
        KeyCode::NavigateBackward => 122,
        KeyCode::NextTrack => 123,
        KeyCode::NoConvert => 124,
        KeyCode::NumpadComma => 125,
        KeyCode::NumpadEnter => 126,
        KeyCode::NumpadEquals => 127,
        KeyCode::OEM102 => 128,
        KeyCode::Period => 129,
        KeyCode::PlayPause => 130,
        KeyCode::Power => 131,
        KeyCode::PrevTrack => 132,
        KeyCode::RAlt => 133,
        KeyCode::RBracket => 134,
        KeyCode::RControl => 135,
        KeyCode::RShift => 136,
        KeyCode::RWin => 137,
        KeyCode::Semicolon => 138,
        KeyCode::Slash => 139,
        KeyCode::Sleep => 140,
        KeyCode::Stop => 141,
        KeyCode::Subtract => 142,
        KeyCode::Sysrq => 143,
        KeyCode::Tab => 144,
        KeyCode::Underline => 145,
        KeyCode::Unlabeled => 146,
        KeyCode::VolumeDown => 147,
        KeyCode::VolumeUp => 148,
        KeyCode::Wake => 149,
        KeyCode::WebBack => 150,
        KeyCode::WebFavorites => 151,
        KeyCode::WebForward => 152,
        KeyCode::WebHome => 153,
        KeyCode::WebRefresh => 154,
        KeyCode::WebSearch => 155,
        KeyCode::WebStop => 156,
        KeyCode::Yen => 157,
        KeyCode::Copy => 158,
        KeyCode::Paste => 159,
        KeyCode::Cut => 160,
    }
}

/// The key at a position of the canonical ordering, if the position exists.
pub open spec fn spec_key_at(index: usize) -> Option<KeyCode> {
    match index {
        0 => Some(KeyCode::Key1),
        1 => Some(KeyCode::Key2),
        2 => Some(KeyCode::Key3),
        3 => Some(KeyCode::Key4),
        4 => Some(KeyCode::Key5),
        5 => Some(KeyCode::Key6),
        6 => Some(KeyCode::Key7),
        7 => Some(KeyCode::Key8),
        8 => Some(KeyCode::Key9),
        9 => Some(KeyCode::Key0),
        10 => Some(KeyCode::A),
        11 => Some(KeyCode::B),
        12 => Some(KeyCode::C),
        13 => Some(KeyCode::D),
        14 => Some(KeyCode::E),
        15 => Some(KeyCode::F),
        16 => Some(KeyCode::G),
        17 => Some(KeyCode::H),
        18 => Some(KeyCode::I),
        19 => Some(KeyCode::J),
        20 => Some(KeyCode::K),
        21 => Some(KeyCode::L),
        22 => Some(KeyCode::M),
        23 => Some(KeyCode::N),
        24 => Some(KeyCode::O),
        25 => Some(KeyCode::P),
        26 => Some(KeyCode::Q),
        27 => Some(KeyCode::R),
        28 => Some(KeyCode::S),
        29 => Some(KeyCode::T),
        30 => Some(KeyCode::U),
        31 => Some(KeyCode::V),
        32 => Some(KeyCode::W),
        33 => Some(KeyCode::X),
        34 => Some(KeyCode::Y),
        35 => Some(KeyCode::Z),
        36 => Some(KeyCode::Escape),
        37 => Some(KeyCode::F1),
        38 => Some(KeyCode::F2),
        39 => Some(KeyCode::F3),
        40 => Some(KeyCode::F4),
        41 => Some(KeyCode::F5),
        42 => Some(KeyCode::F6),
        43 => Some(KeyCode::F7),
        44 => Some(KeyCode::F8),
        45 => Some(KeyCode::F9),
        46 => Some(KeyCode::F10),
        47 => Some(KeyCode::F11),
        48 => Some(KeyCode::F12),
        49 => Some(KeyCode::F13),
        50 => Some(KeyCode::F14),
        51 => Some(KeyCode::F15),
        52 => Some(KeyCode::F16),
        53 => Some(KeyCode::F17),
        54 => Some(KeyCode::F18),
        55 => Some(KeyCode::F19),
        56 => Some(KeyCode::F20),
        57 => Some(KeyCode::F21),
        58 => Some(KeyCode::F22),
        59 => Some(KeyCode::F23),
        60 => Some(KeyCode::F24),
        61 => Some(KeyCode::Snapshot),
        62 => Some(KeyCode::Scroll),
        63 => Some(KeyCode::Pause),
        64 => Some(KeyCode::Insert),
        65 => Some(KeyCode::Home),
        66 => Some(KeyCode::Delete),
        67 => Some(KeyCode::End),
        68 => Some(KeyCode::PageDown),
        69 => Some(KeyCode::PageUp),
        70 => Some(KeyCode::Left),
        71 => Some(KeyCode::Up),
        72 => Some(KeyCode::Right),
        73 => Some(KeyCode::Down),
        74 => Some(KeyCode::Back),
        75 => Some(KeyCode::Return),
        76 => Some(KeyCode::Space),
        77 => Some(KeyCode::Compose),
        78 => Some(KeyCode::Caret),
        79 => Some(KeyCode::Numlock),
        80 => Some(KeyCode::Numpad0),
        81 => Some(KeyCode::Numpad1),
        82 => Some(KeyCode::Numpad2),
        83 => Some(KeyCode::Numpad3),
        84 => Some(KeyCode::Numpad4),
        85 => Some(KeyCode::Numpad5),
        86 => Some(KeyCode::Numpad6),
        87 => Some(KeyCode::Numpad7),
        88 => Some(KeyCode::Numpad8),
        89 => Some(KeyCode::Numpad9),
        90 => Some(KeyCode::AbntC1),
        91 => Some(KeyCode::AbntC2),
        92 => Some(KeyCode::Add),
        93 => Some(KeyCode::Apostrophe),
        94 => Some(KeyCode::Apps),
        95 => Some(KeyCode::At),
        96 => Some(KeyCode::Ax),
        97 => Some(KeyCode::Backslash),
        98 => Some(KeyCode::Calculator),
        99 => Some(KeyCode::Capital),
        100 => Some(KeyCode::Colon),
        101 => Some(KeyCode::Comma),
        102 => Some(KeyCode::Convert),
        103 => Some(KeyCode::Decimal),
        104 => Some(KeyCode::Divide),
        105 => Some(KeyCode::Equals),
        106 => Some(KeyCode::Grave),
        107 => Some(KeyCode::Kana),
        108 => Some(KeyCode::Kanji),
        109 => Some(KeyCode::LAlt),
        110 => Some(KeyCode::LBracket),
        111 => Some(KeyCode::LControl),
        112 => Some(KeyCode::LShift),
        113 => Some(KeyCode::LWin),
        114 => Some(KeyCode::Mail),
        115 => Some(KeyCode::MediaSelect),
        116 => Some(KeyCode::MediaStop),
        117 => Some(KeyCode::Minus),
        118 => Some(KeyCode::Multiply),
        119 => Some(KeyCode::Mute),
        120 => Some(KeyCode::MyComputer),
        121 => Some(KeyCode::NavigateForward),
        122 => Some(KeyCode::NavigateBackward),
        123 => Some(KeyCode::NextTrack),
        124 => Some(KeyCode::NoConvert),
        125 => Some(KeyCode::NumpadComma),
        126 => Some(KeyCode::NumpadEnter),
        127 => Some(KeyCode::NumpadEquals),
        128 => Some(KeyCode::OEM102),
        129 => Some(KeyCode::Period),
        130 => Some(KeyCode::PlayPause),
        131 => Some(KeyCode::Power),
        132 => Some(KeyCode::PrevTrack),
        133 => Some(KeyCode::RAlt),
        134 => Some(KeyCode::RBracket),
        135 => Some(KeyCode::RControl),
        136 => Some(KeyCode::RShift),
        137 => Some(KeyCode::RWin),
        138 => Some(KeyCode::Semicolon),
        139 => Some(KeyCode::Slash),
        140 => Some(KeyCode::Sleep),
        141 => Some(KeyCode::Stop),
        142 => Some(KeyCode::Subtract),
        143 => Some(KeyCode::Sysrq),
        144 => Some(KeyCode::Tab),
        145 => Some(KeyCode::Underline),
        146 => Some(KeyCode::Unlabeled),
        147 => Some(KeyCode::VolumeDown),
        148 => Some(KeyCode::VolumeUp),
        149 => Some(KeyCode::Wake),
        150 => Some(KeyCode::WebBack),
        151 => Some(KeyCode::WebFavorites),
        152 => Some(KeyCode::WebForward),
        153 => Some(KeyCode::WebHome),
        154 => Some(KeyCode::WebRefresh),
        155 => Some(KeyCode::WebSearch),
        156 => Some(KeyCode::WebStop),
        157 => Some(KeyCode::Yen),
        158 => Some(KeyCode::Copy),
        159 => Some(KeyCode::Paste),
        160 => Some(KeyCode::Cut),
        _ => None,
    }
}

/// Position of a key in the canonical ordering.
pub fn key_index(key: KeyCode) -> (index: usize)
    ensures
        index == spec_key_index(key),
        index < KEY_COUNT,
        spec_key_at(index) == Some(key),
{
    match key {
        KeyCode::Key1 => 0,
        KeyCode::Key2 => 1,
        KeyCode::Key3 => 2,
        KeyCode::Key4 => 3,
        KeyCode::Key5 => 4,
        KeyCode::Key6 => 5,
        KeyCode::Key7 => 6,
        KeyCode::Key8 => 7,
        KeyCode::Key9 => 8,
        KeyCode::Key0 => 9,
        KeyCode::A => 10,
        KeyCode::B => 11,
        KeyCode::C => 12,
        KeyCode::D => 13,
        KeyCode::E => 14,
        KeyCode::F => 15,
        KeyCode::G => 16,
        KeyCode::H => 17,
        KeyCode::I => 18,
        KeyCode::J => 19,
        KeyCode::K => 20,
        KeyCode::L => 21,
        KeyCode::M => 22,
        KeyCode::N => 23,
        KeyCode::O => 24,
        KeyCode::P => 25,
        KeyCode::Q => 26,
        KeyCode::R => 27,
        KeyCode::S => 28,
        KeyCode::T => 29,
        KeyCode::U => 30,
        KeyCode::V => 31,
        KeyCode::W => 32,
        KeyCode::X => 33,
        KeyCode::Y => 34,
        KeyCode::Z => 35,
        KeyCode::Escape => 36,
        KeyCode::F1 => 37,
        KeyCode::F2 => 38,
        KeyCode::F3 => 39,
        KeyCode::F4 => 40,
        KeyCode::F5 => 41,
        KeyCode::F6 => 42,
        KeyCode::F7 => 43,
        KeyCode::F8 => 44,
        KeyCode::F9 => 45,
        KeyCode::F10 => 46,
        KeyCode::F11 => 47,
        KeyCode::F12 => 48,
        KeyCode::F13 => 49,
        KeyCode::F14 => 50,
        KeyCode::F15 => 51,
        KeyCode::F16 => 52,
        KeyCode::F17 => 53,
        KeyCode::F18 => 54,
        KeyCode::F19 => 55,
        KeyCode::F20 => 56,
        KeyCode::F21 => 57,
        KeyCode::F22 => 58,
        KeyCode::F23 => 59,
        KeyCode::F24 => 60,
        KeyCode::Snapshot => 61,
        KeyCode::Scroll => 62,
        KeyCode::Pause => 63,
        KeyCode::Insert => 64,
        KeyCode::Home => 65,
        KeyCode::Delete => 66,
        KeyCode::End => 67,
        KeyCode::PageDown => 68,
        KeyCode::PageUp => 69,
        KeyCode::Left => 70,
        KeyCode::Up => 71,
        KeyCode::Right => 72,
        KeyCode::Down => 73,
        KeyCode::Back => 74,
        KeyCode::Return => 75,
        KeyCode::Space => 76,
        KeyCode::Compose => 77,
        KeyCode::Caret => 78,
        KeyCode::Numlock => 79,
        KeyCode::Numpad0 => 80,
        KeyCode::Numpad1 => 81,
        KeyCode::Numpad2 => 82,
        KeyCode::Numpad3 => 83,
        KeyCode::Numpad4 => 84,
        KeyCode::Numpad5 => 85,
        KeyCode::Numpad6 => 86,
        KeyCode::Numpad7 => 87,
        KeyCode::Numpad8 => 88,
        KeyCode::Numpad9 => 89,
        KeyCode::AbntC1 => 90,
        KeyCode::AbntC2 => 91,
        KeyCode::Add => 92,
        KeyCode::Apostrophe => 93,
        KeyCode::Apps => 94,
        KeyCode::At => 95,
        KeyCode::Ax => 96,
        KeyCode::Backslash => 97,
        KeyCode::Calculator => 98,
        KeyCode::Capital => 99,
        KeyCode::Colon => 100,
        KeyCode::Comma => 101,
        KeyCode::Convert => 102,
        KeyCode::Decimal => 103,
        KeyCode::Divide => 104,
        KeyCode::Equals => 105,
        KeyCode::Grave => 106,
        KeyCode::Kana => 107,
        KeyCode::Kanji => 108,
        KeyCode::LAlt => 109,
        KeyCode::LBracket => 110,
        KeyCode::LControl => 111,
        KeyCode::LShift => 112,
        KeyCode::LWin => 113,
        KeyCode::Mail => 114,
        KeyCode::MediaSelect => 115,
        KeyCode::MediaStop => 116,
        KeyCode::Minus => 117,
        KeyCode::Multiply => 118,
        KeyCode::Mute => 119,
        KeyCode::MyComputer => 120,
        KeyCode::NavigateForward => 121,
        KeyCode::NavigateBackward => 122,
        KeyCode::NextTrack => 123,
        KeyCode::NoConvert => 124,
        KeyCode::NumpadComma => 125,
        KeyCode::NumpadEnter => 126,
        KeyCode::NumpadEquals => 127,
        KeyCode::OEM102 => 128,
        KeyCode::Period => 129,
        KeyCode::PlayPause => 130,
        KeyCode::Power => 131,
        KeyCode::PrevTrack => 132,
        KeyCode::RAlt => 133,
        KeyCode::RBracket => 134,
        KeyCode::RControl => 135,
        KeyCode::RShift => 136,
        KeyCode::RWin => 137,
        KeyCode::Semicolon => 138,
        KeyCode::Slash => 139,
        KeyCode::Sleep => 140,
        KeyCode::Stop => 141,
        KeyCode::Subtract => 142,
        KeyCode::Sysrq => 143,
        KeyCode::Tab => 144,
        KeyCode::Underline => 145,
        KeyCode::Unlabeled => 146,
        KeyCode::VolumeDown => 147,
        KeyCode::VolumeUp => 148,
        KeyCode::Wake => 149,
        KeyCode::WebBack => 150,
        KeyCode::WebFavorites => 151,
        KeyCode::WebForward => 152,
        KeyCode::WebHome => 153,
        KeyCode::WebRefresh => 154,
        KeyCode::WebSearch => 155,
        KeyCode::WebStop => 156,
        KeyCode::Yen => 157,
        KeyCode::Copy => 158,
        KeyCode::Paste => 159,
        KeyCode::Cut => 160,
    }
}

/// The key at a position of the canonical ordering, if the position exists.
pub fn key_at(index: usize) -> (key: Option<KeyCode>)
    ensures
        key == spec_key_at(index),
        key.is_some() == (index < KEY_COUNT),
        key.is_some() ==> spec_key_index(key.unwrap()) == index,
{
    match index {
        0 => Some(KeyCode::Key1),
        1 => Some(KeyCode::Key2),
        2 => Some(KeyCode::Key3),
        3 => Some(KeyCode::Key4),
        4 => Some(KeyCode::Key5),
        5 => Some(KeyCode::Key6),
        6 => Some(KeyCode::Key7),
        7 => Some(KeyCode::Key8),
        8 => Some(KeyCode::Key9),
        9 => Some(KeyCode::Key0),
        10 => Some(KeyCode::A),
        11 => Some(KeyCode::B),
        12 => Some(KeyCode::C),
        13 => Some(KeyCode::D),
        14 => Some(KeyCode::E),
        15 => Some(KeyCode::F),
        16 => Some(KeyCode::G),
        17 => Some(KeyCode::H),
        18 => Some(KeyCode::I),
        19 => Some(KeyCode::J),
        20 => Some(KeyCode::K),
        21 => Some(KeyCode::L),
        22 => Some(KeyCode::M),
        23 => Some(KeyCode::N),
        24 => Some(KeyCode::O),
        25 => Some(KeyCode::P),
        26 => Some(KeyCode::Q),
        27 => Some(KeyCode::R),
        28 => Some(KeyCode::S),
        29 => Some(KeyCode::T),
        30 => Some(KeyCode::U),
        31 => Some(KeyCode::V),
        32 => Some(KeyCode::W),
        33 => Some(KeyCode::X),
        34 => Some(KeyCode::Y),
        35 => Some(KeyCode::Z),
        36 => Some(KeyCode::Escape),
        37 => Some(KeyCode::F1),
        38 => Some(KeyCode::F2),
        39 => Some(KeyCode::F3),
        40 => Some(KeyCode::F4),
        41 => Some(KeyCode::F5),
        42 => Some(KeyCode::F6),
        43 => Some(KeyCode::F7),
        44 => Some(KeyCode::F8),
        45 => Some(KeyCode::F9),
        46 => Some(KeyCode::F10),
        47 => Some(KeyCode::F11),
        48 => Some(KeyCode::F12),
        49 => Some(KeyCode::F13),
        50 => Some(KeyCode::F14),
        51 => Some(KeyCode::F15),
        52 => Some(KeyCode::F16),
        53 => Some(KeyCode::F17),
        54 => Some(KeyCode::F18),
        55 => Some(KeyCode::F19),
        56 => Some(KeyCode::F20),
        57 => Some(KeyCode::F21),
        58 => Some(KeyCode::F22),
        59 => Some(KeyCode::F23),
        60 => Some(KeyCode::F24),
        61 => Some(KeyCode::Snapshot),
        62 => Some(KeyCode::Scroll),
        63 => Some(KeyCode::Pause),
        64 => Some(KeyCode::Insert),
        65 => Some(KeyCode::Home),
        66 => Some(KeyCode::Delete),
        67 => Some(KeyCode::End),
        68 => Some(KeyCode::PageDown),
        69 => Some(KeyCode::PageUp),
        70 => Some(KeyCode::Left),
        71 => Some(KeyCode::Up),
        72 => Some(KeyCode::Right),
        73 => Some(KeyCode::Down),
        74 => Some(KeyCode::Back),
        75 => Some(KeyCode::Return),
        76 => Some(KeyCode::Space),
        77 => Some(KeyCode::Compose),
        78 => Some(KeyCode::Caret),
        79 => Some(KeyCode::Numlock),
        80 => Some(KeyCode::Numpad0),
        81 => Some(KeyCode::Numpad1),
        82 => Some(KeyCode::Numpad2),
        83 => Some(KeyCode::Numpad3),
        84 => Some(KeyCode::Numpad4),
        85 => Some(KeyCode::Numpad5),
        86 => Some(KeyCode::Numpad6),
        87 => Some(KeyCode::Numpad7),
        88 => Some(KeyCode::Numpad8),
        89 => Some(KeyCode::Numpad9),
        90 => Some(KeyCode::AbntC1),
        91 => Some(KeyCode::AbntC2),
        92 => Some(KeyCode::Add),
        93 => Some(KeyCode::Apostrophe),
        94 => Some(KeyCode::Apps),
        95 => Some(KeyCode::At),
        96 => Some(KeyCode::Ax),
        97 => Some(KeyCode::Backslash),
        98 => Some(KeyCode::Calculator),
        99 => Some(KeyCode::Capital),
        100 => Some(KeyCode::Colon),
        101 => Some(KeyCode::Comma),
        102 => Some(KeyCode::Convert),
        103 => Some(KeyCode::Decimal),
        104 => Some(KeyCode::Divide),
        105 => Some(KeyCode::Equals),
        106 => Some(KeyCode::Grave),
        107 => Some(KeyCode::Kana),
        108 => Some(KeyCode::Kanji),
        109 => Some(KeyCode::LAlt),
        110 => Some(KeyCode::LBracket),
        111 => Some(KeyCode::LControl),
        112 => Some(KeyCode::LShift),
        113 => Some(KeyCode::LWin),
        114 => Some(KeyCode::Mail),
        115 => Some(KeyCode::MediaSelect),
        116 => Some(KeyCode::MediaStop),
        117 => Some(KeyCode::Minus),
        118 => Some(KeyCode::Multiply),
        119 => Some(KeyCode::Mute),
        120 => Some(KeyCode::MyComputer),
        121 => Some(KeyCode::NavigateForward),
        122 => Some(KeyCode::NavigateBackward),
        123 => Some(KeyCode::NextTrack),
        124 => Some(KeyCode::NoConvert),
        125 => Some(KeyCode::NumpadComma),
        126 => Some(KeyCode::NumpadEnter),
        127 => Some(KeyCode::NumpadEquals),
        128 => Some(KeyCode::OEM102),
        129 => Some(KeyCode::Period),
        130 => Some(KeyCode::PlayPause),
        131 => Some(KeyCode::Power),
        132 => Some(KeyCode::PrevTrack),
        133 => Some(KeyCode::RAlt),
        134 => Some(KeyCode::RBracket),
        135 => Some(KeyCode::RControl),
        136 => Some(KeyCode::RShift),
        137 => Some(KeyCode::RWin),
        138 => Some(KeyCode::Semicolon),
        139 => Some(KeyCode::Slash),
        140 => Some(KeyCode::Sleep),
        141 => Some(KeyCode::Stop),
        142 => Some(KeyCode::Subtract),
        143 => Some(KeyCode::Sysrq),
        144 => Some(KeyCode::Tab),
        145 => Some(KeyCode::Underline),
        146 => Some(KeyCode::Unlabeled),
        147 => Some(KeyCode::VolumeDown),
        148 => Some(KeyCode::VolumeUp),
        149 => Some(KeyCode::Wake),
        150 => Some(KeyCode::WebBack),
        151 => Some(KeyCode::WebFavorites),
        152 => Some(KeyCode::WebForward),
        153 => Some(KeyCode::WebHome),
        154 => Some(KeyCode::WebRefresh),
        155 => Some(KeyCode::WebSearch),
        156 => Some(KeyCode::WebStop),
        157 => Some(KeyCode::Yen),
        158 => Some(KeyCode::Copy),
        159 => Some(KeyCode::Paste),
        160 => Some(KeyCode::Cut),
        _ => None,
    }
}

/// Every key has a position below `KEY_COUNT`, and the key at that position
/// is the key itself.
pub proof fn lemma_key_index_round_trip(key: KeyCode)
    ensures
        spec_key_index(key) < KEY_COUNT,
        spec_key_at(spec_key_index(key)) == Some(key),
{
}

/// A position holds a key exactly when it is below `KEY_COUNT`, and that key
/// has the position as its index.
pub proof fn lemma_key_at_round_trip(index: usize)
    ensures
        spec_key_at(index).is_some() == (index < KEY_COUNT),
        spec_key_at(index).is_some() ==> spec_key_index(spec_key_at(index).unwrap()) == index,
{
}

/// Two keys with the same position are the same key.
pub proof fn lemma_key_index_injective(a: KeyCode, b: KeyCode)
    requires
        spec_key_index(a) == spec_key_index(b),
    ensures
        a == b,
{
    lemma_key_index_round_trip(a);
    lemma_key_index_round_trip(b);
}

/// Every key, in the canonical ordering.
pub fn all_keys() -> (keys: Vec<KeyCode>)
    ensures
        keys.len() == KEY_COUNT,
        forall|i: int| 0 <= i < KEY_COUNT ==> spec_key_at(i as usize) == Some(#[trigger] keys[i]),
{
    let mut keys: Vec<KeyCode> = Vec::new();
    let mut i: usize = 0;
    while i < KEY_COUNT
        invariant
            i <= KEY_COUNT,
            keys.len() == i,
            forall|j: int| 0 <= j < i ==> spec_key_at(j as usize) == Some(#[trigger] keys[j]),
        decreases KEY_COUNT - i,
    {
        match key_at(i) {
            Some(key) => keys.push(key),
            None => {},
        }
        i += 1;
    }
    keys
}

/// The set of keys currently held down on one input device.
///
/// One flag per position of the canonical ordering; positions past the end of
/// the list count as not held.
pub struct KeySet {
    held: Vec<bool>,
}

impl KeySet {
    /// Whether the key is in the set.
    pub closed spec fn holds(&self, key: KeyCode) -> bool {
        spec_key_index(key) < self.held.len() && self.held@[spec_key_index(key) as int]
    }

    /// The keys of the set.
    pub open spec fn view(&self) -> Set<KeyCode> {
        Set::new(|key: KeyCode| self.holds(key))
    }

    /// The empty set.
    pub fn new() -> (keys: Self)
        ensures
            keys@ == Set::<KeyCode>::empty(),
    {
        let keys = KeySet { held: Vec::new() };
        assert(keys@ =~= Set::<KeyCode>::empty());
        keys
    }

    /// Whether the key is in the set.
    pub fn contains(&self, key: KeyCode) -> (r: bool)
        ensures
            r == self@.contains(key),
    {
        let index: usize = key_index(key);
        index < self.held.len() && self.held[index]
    }

    /// Adds a key. Returns whether the key was new to the set.
    pub fn insert(&mut self, key: KeyCode) -> (fresh: bool)
        ensures
            fresh == !old(self)@.contains(key),
            final(self)@ == old(self)@.insert(key),
    {
        let index: usize = key_index(key);
        while self.held.len() <= index
            invariant
                old(self).held.len() <= self.held.len(),
                self.held.len() <= index + 1 || self.held.len() == old(self).held.len(),
                forall|j: int| 0 <= j < old(self).held.len() ==> self.held[j] == old(self).held[j],
                forall|j: int| old(self).held.len() <= j < self.held.len() ==> !self.held[j],
            decreases index + 1 - self.held.len(),
        {
            self.held.push(false);
        }
        let fresh = !self.held[index];
        self.held.set(index, true);
        proof {
            assert forall|other: KeyCode| self@.contains(other) == old(self)@.insert(key).contains(
                other,
            ) by {
                if other != key && spec_key_index(other) == spec_key_index(key) {
                    lemma_key_index_injective(other, key);
                }
            }
            assert(self@ =~= old(self)@.insert(key));
        }
        fresh
    }

    /// Removes a key. Returns whether the key was in the set.
    pub fn remove(&mut self, key: KeyCode) -> (present: bool)
        ensures
            present == old(self)@.contains(key),
            final(self)@ == old(self)@.remove(key),
    {
        let index: usize = key_index(key);
        if index >= self.held.len() {
            assert(self@ =~= old(self)@.remove(key));
            return false;
        }
        let present = self.held[index];
        self.held.set(index, false);
        proof {
            assert forall|other: KeyCode| self@.contains(other) == old(self)@.remove(key).contains(
                other,
            ) by {
                if other != key && spec_key_index(other) == spec_key_index(key) {
                    lemma_key_index_injective(other, key);
                }
            }
            assert(self@ =~= old(self)@.remove(key));
        }
        present
    }

    /// Removes every key.
    pub fn clear(&mut self)
        ensures
            final(self)@ == Set::<KeyCode>::empty(),
    {
        self.held.clear();
        assert(self@ =~= Set::<KeyCode>::empty());
    }
}

impl Clone for KeySet {
    /// A set holding the same keys.
    fn clone(&self) -> (copy: Self)
        ensures
            copy@ == self@,
    {
        let mut held: Vec<bool> = Vec::new();
        let mut i: usize = 0;
        while i < self.held.len()
            invariant
                i <= self.held.len(),
                held.len() == i,
                forall|j: int| 0 <= j < i ==> held[j] == self.held[j],
            decreases self.held.len() - i,
        {
            held.push(self.held[i]);
            i += 1;
        }
        let copy = KeySet { held };
        assert(copy@ =~= self@);
        copy
    }
}

} // verus!
