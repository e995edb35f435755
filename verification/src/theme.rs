//! The two colour palettes. A colour is a GDI `COLORREF`: red in the low
//! byte, then green, then blue.
use vstd::prelude::*;
use crate::settings::{Settings, Theme};

verus! {

/// The `COLORREF` of an RGB triple.
pub open spec fn rgb_spec(red: u8, green: u8, blue: u8) -> u32 {
    (red + green * 0x100 + blue * 0x10000) as u32
}

/// Packs an RGB triple into a `COLORREF`.
pub fn rgb(red: u8, green: u8, blue: u8) -> (r: u32)
    ensures
        r == rgb_spec(red, green, blue),
{
    let r = red as u32 | (green as u32) << 8 | (blue as u32) << 16;
    assert(r == red + green * 0x100 + blue * 0x10000) by (bit_vector)
        requires
            r == red as u32 | (green as u32) << 8 | (blue as u32) << 16,
    ;
    r
}

/// The colours of one theme.
#[derive(Clone, Copy, Debug, PartialEq, Eq, Structural)]
pub struct Palette {
    pub background: u32,
    pub surface: u32,
    pub surface_alt: u32,
    pub text: u32,
    pub muted: u32,
    pub faint: u32,
    pub accent: u32,
    pub accent_text: u32,
    pub border: u32,
    pub event: u32,
    pub selected: u32,
    pub danger: u32,
}

/// The design system's palettes.
pub open spec fn palette_spec(theme: Theme) -> Palette {
    match theme {
        Theme::Dark => Palette {
            background: rgb_spec(30, 31, 33),
            surface: rgb_spec(43, 45, 48),
            surface_alt: rgb_spec(53, 56, 60),
            text: rgb_spec(240, 241, 243),
            muted: rgb_spec(176, 183, 192),
            faint: rgb_spec(91, 97, 104),
            accent: rgb_spec(248, 211, 88),
            accent_text: rgb_spec(24, 24, 24),
            border: rgb_spec(70, 70, 70),
            event: rgb_spec(126, 180, 255),
            selected: rgb_spec(64, 58, 38),
            danger: rgb_spec(255, 104, 104),
        },
        Theme::Light => Palette {
            background: rgb_spec(231, 233, 236),
            surface: rgb_spec(250, 250, 250),
            surface_alt: rgb_spec(241, 243, 246),
            text: rgb_spec(27, 31, 36),
            muted: rgb_spec(91, 98, 107),
            faint: rgb_spec(176, 181, 188),
            accent: rgb_spec(230, 181, 43),
            accent_text: rgb_spec(29, 25, 12),
            border: rgb_spec(211, 214, 219),
            event: rgb_spec(32, 100, 191),
            selected: rgb_spec(255, 246, 205),
            danger: rgb_spec(206, 49, 49),
        },
    }
}

impl Palette {
    /// The palette of the theme in the given settings.
    pub fn current(settings: &Settings) -> (r: Palette)
        ensures
            r == palette_spec(settings.theme),
    {
        Palette::from_theme(settings.theme)
    }

    /// The palette of a theme.
    pub fn from_theme(theme: Theme) -> (r: Palette)
        ensures
            r == palette_spec(theme),
    {
        match theme {
            Theme::Dark => Palette {
                background: rgb(30, 31, 33),
                surface: rgb(43, 45, 48),
                surface_alt: rgb(53, 56, 60),
                text: rgb(240, 241, 243),
                muted: rgb(176, 183, 192),
                faint: rgb(91, 97, 104),
                accent: rgb(248, 211, 88),
                accent_text: rgb(24, 24, 24),
                border: rgb(70, 70, 70),
                event: rgb(126, 180, 255),
                selected: rgb(64, 58, 38),
                danger: rgb(255, 104, 104),
            },
            Theme::Light => Palette {
                background: rgb(231, 233, 236),
                surface: rgb(250, 250, 250),
                surface_alt: rgb(241, 243, 246),
                text: rgb(27, 31, 36),
                muted: rgb(91, 98, 107),
                faint: rgb(176, 181, 188),
                accent: rgb(230, 181, 43),
                accent_text: rgb(29, 25, 12),
                border: rgb(211, 214, 219),
                event: rgb(32, 100, 191),
                selected: rgb(255, 246, 205),
                danger: rgb(206, 49, 49),
            },
        }
    }
}

} // verus!
