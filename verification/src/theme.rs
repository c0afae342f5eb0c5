//! The palettes. A palette is data: `preset_palette` holds them all, by index,
//! a choice records which one is in force, and `set` picks one by the name the
//! settings store. Turning a palette into the widgets' style is the
//! application's business.

use vstd::prelude::*;
use crate::text::same_text;

verus! {

broadcast use vstd::string::group_string_axioms;

/// A colour, as its red, green and blue channels.
#[derive(Debug, Clone, Copy, PartialEq, Eq, Structural)]
pub struct Rgb {
    pub r: u8,
    pub g: u8,
    pub b: u8,
}

/// A colour written as `0xRRGGBB`.
pub open spec fn code(c: Rgb) -> nat {
    (c.r as nat) * 65536 + (c.g as nat) * 256 + (c.b as nat)
}

/// A colour from its three channels.
pub fn rgb(r: u8, g: u8, b: u8) -> (c: Rgb)
    ensures
        c == (Rgb { r, g, b }),
{
    Rgb { r, g, b }
}

/// Every colour the window is painted in, slot by slot.
#[derive(Debug, Clone, Copy, PartialEq, Eq, Structural)]
pub struct Palette {
    /// Whether the palette is a dark one, which is all the widgets want to know.
    pub dark: bool,
    /// The background of the whole window.
    pub backdrop: Rgb,
    /// Cards, list rows, the search field.
    pub surface: Rgb,
    pub surface_hover: Rgb,
    /// The card of the station that is playing.
    pub card: Rgb,
    pub card_outline: Rgb,
    pub accent: Rgb,
    pub accent_hover: Rgb,
    /// What goes on top of `accent`: the accent is a saturated colour, so the
    /// ordinary `text` would not read against it.
    pub on_accent: Rgb,
    pub text: Rgb,
    pub muted: Rgb,
    pub outline: Rgb,
    /// The colour of "Live", kept clear of `accent`.
    pub live: Rgb,
    /// The app name in the title bar, and the metadata of the track.
    pub title: Rgb,
    /// The button that closes the window, and Stop.
    pub danger: Rgb,
    /// `danger` under the pointer.
    pub danger_hover: Rgb,
    /// Failure messages: a lighter tint of `danger`.
    pub error: Rgb,
    /// Warnings, for the widgets that ask for one.
    pub warn: Rgb,
}

/// The colours of a palette, slot by slot, each as `0xRRGGBB`.
pub open spec fn codes(p: Palette) -> Seq<nat> {
    seq![
        code(p.backdrop),
        code(p.surface),
        code(p.surface_hover),
        code(p.card),
        code(p.card_outline),
        code(p.accent),
        code(p.accent_hover),
        code(p.on_accent),
        code(p.text),
        code(p.muted),
        code(p.outline),
        code(p.live),
        code(p.title),
        code(p.danger),
        code(p.danger_hover),
        code(p.error),
        code(p.warn),
    ]
}

/// How many palettes the app carries.
pub const PRESET_COUNT: usize = 10;

/// The name of preset `i`: what the settings store and the picker lists.
pub open spec fn preset_name(i: int) -> Seq<char> {
    if i == 0 {
        seq!['A', 'u', 'r', 'o', 'r', 'a', ' ', 'N', 'i', 'g', 'h', 't']
    } else if i == 1 {
        seq!['N', 'o', 'r', 'd']
    } else if i == 2 {
        seq!['D', 'r', 'a', 'c', 'u', 'l', 'a']
    } else if i == 3 {
        seq!['G', 'r', 'u', 'v', 'b', 'o', 'x']
    } else if i == 4 {
        seq!['S', 'o', 'l', 'a', 'r', 'i', 'z', 'e', 'd']
    } else if i == 5 {
        seq!['E', 'm', 'b', 'e', 'r']
    } else if i == 6 {
        seq!['S', 'l', 'a', 't', 'e']
    } else if i == 7 {
        seq!['C', 'a', 'r', 'b', 'o', 'n']
    } else if i == 8 {
        seq!['T', 'e', 'r', 'm', 'i', 'n', 'a', 'l']
    } else {
        seq!['D', 'a', 'y', 'l', 'i', 'g', 'h', 't']
    }
}

/// Whether preset `i` is a dark one: all of them but the last.
pub open spec fn preset_dark(i: int) -> bool {
    i != 9
}

/// The name of preset `i`.
pub fn preset_name_text(i: usize) -> (r: &'static str)
    requires
        i < PRESET_COUNT,
    ensures
        r@ == preset_name(i as int),
{
    if i == 0 {
        proof { reveal_strlit("Aurora Night"); }
        "Aurora Night"
    } else if i == 1 {
        proof { reveal_strlit("Nord"); }
        "Nord"
    } else if i == 2 {
        proof { reveal_strlit("Dracula"); }
        "Dracula"
    } else if i == 3 {
        proof { reveal_strlit("Gruvbox"); }
        "Gruvbox"
    } else if i == 4 {
        proof { reveal_strlit("Solarized"); }
        "Solarized"
    } else if i == 5 {
        proof { reveal_strlit("Ember"); }
        "Ember"
    } else if i == 6 {
        proof { reveal_strlit("Slate"); }
        "Slate"
    } else if i == 7 {
        proof { reveal_strlit("Carbon"); }
        "Carbon"
    } else if i == 8 {
        proof { reveal_strlit("Terminal"); }
        "Terminal"
    } else {
        proof { reveal_strlit("Daylight"); }
        "Daylight"
    }
}

/// The colours of preset `i`, slot by slot in the order of `codes`, each as `0xRRGGBB`.
pub open spec fn preset_codes(i: int) -> Seq<nat> {
    if i == 0 {
        seq![0x0F1424, 0x1A2138, 0x253052, 0x10344F, 0x2F7FB5, 0x38BDF8, 0x7DD3FC, 0x082032, 0xE8EEF9, 0x8FA0BF, 0x2A3550, 0x34D399, 0xFBBF24, 0xF43F5E, 0xFB7185, 0xFDA4AF, 0xFCD34D]
    } else if i == 1 {
        seq![0x2E3440, 0x3B4252, 0x4A5469, 0x35465E, 0x5E81AC, 0x88C0D0, 0xA6D8E4, 0x222833, 0xECEFF4, 0xA6B1C4, 0x434C5E, 0xA3BE8C, 0xEBCB8B, 0xBF616A, 0xD38189, 0xE0A3A8, 0xEBCB8B]
    } else if i == 2 {
        seq![0x282A36, 0x343746, 0x44475A, 0x3B3355, 0xBD93F9, 0xBD93F9, 0xD6BCFA, 0x1E1F29, 0xF8F8F2, 0xA3AAC8, 0x44475A, 0x50FA7B, 0xF1FA8C, 0xFF5555, 0xFF7B7B, 0xFF9C9C, 0xFFB86C]
    } else if i == 3 {
        seq![0x1D2021, 0x282828, 0x3C3836, 0x382C1F, 0xD79921, 0xFE8019, 0xFEA96A, 0x1D2021, 0xEBDBB2, 0xA89984, 0x3C3836, 0xB8BB26, 0x83A598, 0xFB4934, 0xFE7F70, 0xFB9F93, 0xFABD2F]
    } else if i == 4 {
        seq![0x002B36, 0x073642, 0x0E4A5A, 0x053F4B, 0x2AA198, 0x2AA198, 0x4FC3BA, 0x00222B, 0xEEE8D5, 0x93A1A1, 0x0E4A5A, 0x859900, 0xB58900, 0xDC322F, 0xE8635F, 0xF0918E, 0xCB4B16]
    } else if i == 5 {
        seq![0x14100F, 0x201A18, 0x2E2523, 0x331C1A, 0xB5453C, 0xFF6B4A, 0xFF8F73, 0x1A0C08, 0xF2E7E3, 0xB29A93, 0x332926, 0x6FCF97, 0xF2C14E, 0xE5484D, 0xF06D71, 0xF5A3A5, 0xF2C14E]
    } else if i == 6 {
        seq![0x171A1F, 0x22262D, 0x303640, 0x272D37, 0x64748B, 0x94A3B8, 0xB8C5D2, 0x15181D, 0xE5E9EF, 0x8C97A8, 0x2F353E, 0x7CC49B, 0xD9B387, 0xD16B72, 0xE28D93, 0xEBAFB3, 0xD9B387]
    } else if i == 7 {
        seq![0x121212, 0x1E1E1E, 0x2E2E2E, 0x2A2118, 0xB4762F, 0xF59E0B, 0xFBBF24, 0x1A1206, 0xECECEC, 0x9A9A9A, 0x353535, 0x4ADE80, 0x7DD3FC, 0xEF4444, 0xF87171, 0xFCA5A5, 0xFCD34D]
    } else if i == 8 {
        seq![0x050806, 0x0D140F, 0x18261C, 0x08210F, 0x2F9E52, 0x22C55E, 0x4ADE80, 0x04140A, 0xD2F5DC, 0x7FA98B, 0x1E2E22, 0xA3E635, 0xE3B341, 0xF43F5E, 0xFB7185, 0xFDA4AF, 0xFCD34D]
    } else {
        seq![0xF4F6FA, 0xFFFFFF, 0xE6ECF5, 0xDCEBFA, 0x3B82F6, 0x0B72D0, 0x1D8FE8, 0xFFFFFF, 0x10182A, 0x5B6B85, 0xC7D2E2, 0x0E8F62, 0xB45309, 0xDC2626, 0xB91C1C, 0xB91C1C, 0xA16207]
    }
}

/// The palette of preset `i`.
pub fn preset_palette(i: usize) -> (r: Palette)
    requires
        i < PRESET_COUNT,
    ensures
        codes(r) == preset_codes(i as int),
        r.dark == preset_dark(i as int),
{
    if i == 0 {
        Palette {
            dark: true,
            backdrop: rgb(0x0F, 0x14, 0x24),
            surface: rgb(0x1A, 0x21, 0x38),
            surface_hover: rgb(0x25, 0x30, 0x52),
            card: rgb(0x10, 0x34, 0x4F),
            card_outline: rgb(0x2F, 0x7F, 0xB5),
            accent: rgb(0x38, 0xBD, 0xF8),
            accent_hover: rgb(0x7D, 0xD3, 0xFC),
            on_accent: rgb(0x08, 0x20, 0x32),
            text: rgb(0xE8, 0xEE, 0xF9),
            muted: rgb(0x8F, 0xA0, 0xBF),
            outline: rgb(0x2A, 0x35, 0x50),
            live: rgb(0x34, 0xD3, 0x99),
            title: rgb(0xFB, 0xBF, 0x24),
            danger: rgb(0xF4, 0x3F, 0x5E),
            danger_hover: rgb(0xFB, 0x71, 0x85),
            error: rgb(0xFD, 0xA4, 0xAF),
            warn: rgb(0xFC, 0xD3, 0x4D),
        }
    } else if i == 1 {
        Palette {
            dark: true,
            backdrop: rgb(0x2E, 0x34, 0x40),
            surface: rgb(0x3B, 0x42, 0x52),
            surface_hover: rgb(0x4A, 0x54, 0x69),
            card: rgb(0x35, 0x46, 0x5E),
            card_outline: rgb(0x5E, 0x81, 0xAC),
            accent: rgb(0x88, 0xC0, 0xD0),
            accent_hover: rgb(0xA6, 0xD8, 0xE4),
            on_accent: rgb(0x22, 0x28, 0x33),
            text: rgb(0xEC, 0xEF, 0xF4),
            muted: rgb(0xA6, 0xB1, 0xC4),
            outline: rgb(0x43, 0x4C, 0x5E),
            live: rgb(0xA3, 0xBE, 0x8C),
            title: rgb(0xEB, 0xCB, 0x8B),
            danger: rgb(0xBF, 0x61, 0x6A),
            danger_hover: rgb(0xD3, 0x81, 0x89),
            error: rgb(0xE0, 0xA3, 0xA8),
            warn: rgb(0xEB, 0xCB, 0x8B),
        }
    } else if i == 2 {
        Palette {
            dark: true,
            backdrop: rgb(0x28, 0x2A, 0x36),
            surface: rgb(0x34, 0x37, 0x46),
            surface_hover: rgb(0x44, 0x47, 0x5A),
            card: rgb(0x3B, 0x33, 0x55),
            card_outline: rgb(0xBD, 0x93, 0xF9),
            accent: rgb(0xBD, 0x93, 0xF9),
            accent_hover: rgb(0xD6, 0xBC, 0xFA),
            on_accent: rgb(0x1E, 0x1F, 0x29),
            text: rgb(0xF8, 0xF8, 0xF2),
            muted: rgb(0xA3, 0xAA, 0xC8),
            outline: rgb(0x44, 0x47, 0x5A),
            live: rgb(0x50, 0xFA, 0x7B),
            title: rgb(0xF1, 0xFA, 0x8C),
            danger: rgb(0xFF, 0x55, 0x55),
            danger_hover: rgb(0xFF, 0x7B, 0x7B),
            error: rgb(0xFF, 0x9C, 0x9C),
            warn: rgb(0xFF, 0xB8, 0x6C),
        }
    } else if i == 3 {
        Palette {
            dark: true,
            backdrop: rgb(0x1D, 0x20, 0x21),
            surface: rgb(0x28, 0x28, 0x28),
            surface_hover: rgb(0x3C, 0x38, 0x36),
            card: rgb(0x38, 0x2C, 0x1F),
            card_outline: rgb(0xD7, 0x99, 0x21),
            accent: rgb(0xFE, 0x80, 0x19),
            accent_hover: rgb(0xFE, 0xA9, 0x6A),
            on_accent: rgb(0x1D, 0x20, 0x21),
            text: rgb(0xEB, 0xDB, 0xB2),
            muted: rgb(0xA8, 0x99, 0x84),
            outline: rgb(0x3C, 0x38, 0x36),
            live: rgb(0xB8, 0xBB, 0x26),
            title: rgb(0x83, 0xA5, 0x98),
            danger: rgb(0xFB, 0x49, 0x34),
            danger_hover: rgb(0xFE, 0x7F, 0x70),
            error: rgb(0xFB, 0x9F, 0x93),
            warn: rgb(0xFA, 0xBD, 0x2F),
        }
    } else if i == 4 {
        Palette {
            dark: true,
            backdrop: rgb(0x00, 0x2B, 0x36),
            surface: rgb(0x07, 0x36, 0x42),
            surface_hover: rgb(0x0E, 0x4A, 0x5A),
            card: rgb(0x05, 0x3F, 0x4B),
            card_outline: rgb(0x2A, 0xA1, 0x98),
            accent: rgb(0x2A, 0xA1, 0x98),
            accent_hover: rgb(0x4F, 0xC3, 0xBA),
            on_accent: rgb(0x00, 0x22, 0x2B),
            text: rgb(0xEE, 0xE8, 0xD5),
            muted: rgb(0x93, 0xA1, 0xA1),
            outline: rgb(0x0E, 0x4A, 0x5A),
            live: rgb(0x85, 0x99, 0x00),
            title: rgb(0xB5, 0x89, 0x00),
            danger: rgb(0xDC, 0x32, 0x2F),
            danger_hover: rgb(0xE8, 0x63, 0x5F),
            error: rgb(0xF0, 0x91, 0x8E),
            warn: rgb(0xCB, 0x4B, 0x16),
        }
    } else if i == 5 {
        Palette {
            dark: true,
            backdrop: rgb(0x14, 0x10, 0x0F),
            surface: rgb(0x20, 0x1A, 0x18),
            surface_hover: rgb(0x2E, 0x25, 0x23),
            card: rgb(0x33, 0x1C, 0x1A),
            card_outline: rgb(0xB5, 0x45, 0x3C),
            accent: rgb(0xFF, 0x6B, 0x4A),
            accent_hover: rgb(0xFF, 0x8F, 0x73),
            on_accent: rgb(0x1A, 0x0C, 0x08),
            text: rgb(0xF2, 0xE7, 0xE3),
            muted: rgb(0xB2, 0x9A, 0x93),
            outline: rgb(0x33, 0x29, 0x26),
            live: rgb(0x6F, 0xCF, 0x97),
            title: rgb(0xF2, 0xC1, 0x4E),
            danger: rgb(0xE5, 0x48, 0x4D),
            danger_hover: rgb(0xF0, 0x6D, 0x71),
            error: rgb(0xF5, 0xA3, 0xA5),
            warn: rgb(0xF2, 0xC1, 0x4E),
        }
    } else if i == 6 {
        Palette {
            dark: true,
            backdrop: rgb(0x17, 0x1A, 0x1F),
            surface: rgb(0x22, 0x26, 0x2D),
            surface_hover: rgb(0x30, 0x36, 0x40),
            card: rgb(0x27, 0x2D, 0x37),
            card_outline: rgb(0x64, 0x74, 0x8B),
            accent: rgb(0x94, 0xA3, 0xB8),
            accent_hover: rgb(0xB8, 0xC5, 0xD2),
            on_accent: rgb(0x15, 0x18, 0x1D),
            text: rgb(0xE5, 0xE9, 0xEF),
            muted: rgb(0x8C, 0x97, 0xA8),
            outline: rgb(0x2F, 0x35, 0x3E),
            live: rgb(0x7C, 0xC4, 0x9B),
            title: rgb(0xD9, 0xB3, 0x87),
            danger: rgb(0xD1, 0x6B, 0x72),
            danger_hover: rgb(0xE2, 0x8D, 0x93),
            error: rgb(0xEB, 0xAF, 0xB3),
            warn: rgb(0xD9, 0xB3, 0x87),
        }
    } else if i == 7 {
        Palette {
            dark: true,
            backdrop: rgb(0x12, 0x12, 0x12),
            surface: rgb(0x1E, 0x1E, 0x1E),
            surface_hover: rgb(0x2E, 0x2E, 0x2E),
            card: rgb(0x2A, 0x21, 0x18),
            card_outline: rgb(0xB4, 0x76, 0x2F),
            accent: rgb(0xF5, 0x9E, 0x0B),
            accent_hover: rgb(0xFB, 0xBF, 0x24),
            on_accent: rgb(0x1A, 0x12, 0x06),
            text: rgb(0xEC, 0xEC, 0xEC),
            muted: rgb(0x9A, 0x9A, 0x9A),
            outline: rgb(0x35, 0x35, 0x35),
            live: rgb(0x4A, 0xDE, 0x80),
            title: rgb(0x7D, 0xD3, 0xFC),
            danger: rgb(0xEF, 0x44, 0x44),
            danger_hover: rgb(0xF8, 0x71, 0x71),
            error: rgb(0xFC, 0xA5, 0xA5),
            warn: rgb(0xFC, 0xD3, 0x4D),
        }
    } else if i == 8 {
        Palette {
            dark: true,
            backdrop: rgb(0x05, 0x08, 0x06),
            surface: rgb(0x0D, 0x14, 0x0F),
            surface_hover: rgb(0x18, 0x26, 0x1C),
            card: rgb(0x08, 0x21, 0x0F),
            card_outline: rgb(0x2F, 0x9E, 0x52),
            accent: rgb(0x22, 0xC5, 0x5E),
            accent_hover: rgb(0x4A, 0xDE, 0x80),
            on_accent: rgb(0x04, 0x14, 0x0A),
            text: rgb(0xD2, 0xF5, 0xDC),
            muted: rgb(0x7F, 0xA9, 0x8B),
            outline: rgb(0x1E, 0x2E, 0x22),
            live: rgb(0xA3, 0xE6, 0x35),
            title: rgb(0xE3, 0xB3, 0x41),
            danger: rgb(0xF4, 0x3F, 0x5E),
            danger_hover: rgb(0xFB, 0x71, 0x85),
            error: rgb(0xFD, 0xA4, 0xAF),
            warn: rgb(0xFC, 0xD3, 0x4D),
        }
    } else {
        Palette {
            dark: false,
            backdrop: rgb(0xF4, 0xF6, 0xFA),
            surface: rgb(0xFF, 0xFF, 0xFF),
            surface_hover: rgb(0xE6, 0xEC, 0xF5),
            card: rgb(0xDC, 0xEB, 0xFA),
            card_outline: rgb(0x3B, 0x82, 0xF6),
            accent: rgb(0x0B, 0x72, 0xD0),
            accent_hover: rgb(0x1D, 0x8F, 0xE8),
            on_accent: rgb(0xFF, 0xFF, 0xFF),
            text: rgb(0x10, 0x18, 0x2A),
            muted: rgb(0x5B, 0x6B, 0x85),
            outline: rgb(0xC7, 0xD2, 0xE2),
            live: rgb(0x0E, 0x8F, 0x62),
            title: rgb(0xB4, 0x53, 0x09),
            danger: rgb(0xDC, 0x26, 0x26),
            danger_hover: rgb(0xB9, 0x1C, 0x1C),
            error: rgb(0xB9, 0x1C, 0x1C),
            warn: rgb(0xA1, 0x62, 0x07),
        }
    }
}

// ---------------------------------------------------------------- the palette in force

/// Which preset is in force, by index.
#[derive(Debug, Clone, Copy, PartialEq, Eq, Structural)]
pub struct ThemeChoice {
    pub index: usize,
}

/// The preset a choice shows: its index, or the last preset for an index past
/// the end.
pub open spec fn in_force(index: usize) -> int {
    if index < PRESET_COUNT {
        index as int
    } else {
        PRESET_COUNT - 1
    }
}

/// The first preset from `i` on that carries the name, or the first preset of
/// all when none does.
pub open spec fn named_from(name: Seq<char>, i: int) -> int
    decreases PRESET_COUNT - i,
{
    if i >= PRESET_COUNT || i < 0 {
        0
    } else if preset_name(i) == name {
        i
    } else {
        named_from(name, i + 1)
    }
}

/// The preset that carries the name, falling back to the first one.
pub open spec fn named_index(name: Seq<char>) -> int {
    named_from(name, 0)
}

impl Default for ThemeChoice {
    fn default() -> (c: Self)
        ensures
            c.index == 0,
    {
        ThemeChoice { index: 0 }
    }
}

/// The palette in force.
pub fn p(choice: &ThemeChoice) -> (r: Palette)
    ensures
        codes(r) == preset_codes(in_force(choice.index)),
        r.dark == preset_dark(in_force(choice.index)),
{
    let i = if choice.index < PRESET_COUNT {
        choice.index
    } else {
        PRESET_COUNT - 1
    };
    preset_palette(i)
}

/// The index of the palette in force, which is what the picker ticks.
pub fn current(choice: &ThemeChoice) -> (r: usize)
    ensures
        r == choice.index,
{
    choice.index
}

/// Switches to the palette of that name, falling back to the first: a settings
/// file naming a palette that no longer exists must not leave the app blank.
pub fn set(choice: &mut ThemeChoice, name: &str)
    ensures
        final(choice).index == named_index(name@),
{
    let mut i: usize = 0;
    while i < PRESET_COUNT
        invariant
            i <= PRESET_COUNT,
            named_from(name@, 0) == named_from(name@, i as int),
        decreases PRESET_COUNT - i,
    {
        if same_text(preset_name_text(i), name) {
            choice.index = i;
            return;
        }
        i = i + 1;
    }
    choice.index = 0;
}

/// The name of every preset leads back to that preset, and any other name to
/// the first one.
pub proof fn law_names_pick_their_palette(i: int, name: Seq<char>)
    requires
        0 <= i < PRESET_COUNT,
    ensures
        named_index(preset_name(i)) == i,
        (forall|j: int| 0 <= j < PRESET_COUNT ==> preset_name(j) != name) ==> named_index(name)
            == 0,
        0 <= named_index(name) < PRESET_COUNT,
{
    lemma_named_from(preset_name(i), 0, i);
    lemma_named_from_range(name, 0);
    if forall|j: int| 0 <= j < PRESET_COUNT ==> preset_name(j) != name {
        lemma_named_none(name, 0);
    }
}

proof fn lemma_names_differ(i: int, j: int)
    requires
        0 <= i < PRESET_COUNT,
        0 <= j < PRESET_COUNT,
        i != j,
    ensures
        preset_name(i) != preset_name(j),
{
    assert(preset_name(i).len() != preset_name(j).len() || preset_name(i)[0] != preset_name(j)[0]);
}

proof fn lemma_named_from(name: Seq<char>, k: int, i: int)
    requires
        0 <= k <= i < PRESET_COUNT,
        name == preset_name(i),
    ensures
        named_from(name, k) == i,
    decreases i - k,
{
    if k < i {
        lemma_names_differ(k, i);
        lemma_named_from(name, k + 1, i);
    }
}

proof fn lemma_named_from_range(name: Seq<char>, k: int)
    requires
        0 <= k,
    ensures
        0 <= named_from(name, k) < PRESET_COUNT,
    decreases PRESET_COUNT - k,
{
    if k < PRESET_COUNT && preset_name(k) != name {
        lemma_named_from_range(name, k + 1);
    }
}

proof fn lemma_named_none(name: Seq<char>, k: int)
    requires
        0 <= k,
        forall|j: int| 0 <= j < PRESET_COUNT ==> preset_name(j) != name,
    ensures
        named_from(name, k) == 0,
    decreases PRESET_COUNT - k,
{
    if k < PRESET_COUNT {
        lemma_named_none(name, k + 1);
    }
}

// ---------------------------------------------------------------- colours for the system

/// A colour the way Windows spells one: COLORREF is `0x00BBGGRR`, the reverse
/// of the order the palette writes it in.
pub fn colorref(c: Rgb) -> (r: u32)
    ensures
        r == (c.b as nat) * 65536 + (c.g as nat) * 256 + (c.r as nat),
{
    (c.b as u32) * 65536 + (c.g as u32) * 256 + (c.r as u32)
}

/// A colour as one pixel of the window's buffer, which wants `0RGB` in a `u32`.
pub fn pixel(c: Rgb) -> (r: u32)
    ensures
        r == code(c),
{
    (c.r as u32) * 65536 + (c.g as u32) * 256 + (c.b as u32)
}

} // verus!
