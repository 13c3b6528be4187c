//! Colors, text modifiers and the style that combines them.

use vstd::prelude::*;

verus! {

/// A terminal color.
#[derive(Debug, Clone, Copy, PartialEq, Eq, Hash, Structural)]
pub enum Color {
    Reset,
    Black,
    Red,
    Green,
    Yellow,
    Blue,
    Magenta,
    Cyan,
    Gray,
    DarkGray,
    LightRed,
    LightGreen,
    LightYellow,
    LightBlue,
    LightMagenta,
    LightCyan,
    White,
    Rgb(u8, u8, u8),
    Indexed(u8),
}

/// A set of text modifiers (bold, italic, ...) held as bit flags.
#[derive(Debug, Clone, Copy, PartialEq, Eq, Hash, Structural)]
pub struct Modifier {
    pub bits: u16,
}

impl Modifier {
    /// The bold modifier alone.
    pub fn bold() -> (r: Modifier)
        ensures
            r.bits == 0x0001,
    {
        Modifier { bits: 0x0001 }
    }

    /// The dim modifier alone.
    pub fn dim() -> (r: Modifier)
        ensures
            r.bits == 0x0002,
    {
        Modifier { bits: 0x0002 }
    }

    /// The italic modifier alone.
    pub fn italic() -> (r: Modifier)
        ensures
            r.bits == 0x0004,
    {
        Modifier { bits: 0x0004 }
    }

    /// The underlined modifier alone.
    pub fn underlined() -> (r: Modifier)
        ensures
            r.bits == 0x0008,
    {
        Modifier { bits: 0x0008 }
    }

    /// The slow blink modifier alone.
    pub fn slow_blink() -> (r: Modifier)
        ensures
            r.bits == 0x0010,
    {
        Modifier { bits: 0x0010 }
    }

    /// The rapid blink modifier alone.
    pub fn rapid_blink() -> (r: Modifier)
        ensures
            r.bits == 0x0020,
    {
        Modifier { bits: 0x0020 }
    }

    /// The reversed modifier alone.
    pub fn reversed() -> (r: Modifier)
        ensures
            r.bits == 0x0040,
    {
        Modifier { bits: 0x0040 }
    }

    /// The hidden modifier alone.
    pub fn hidden() -> (r: Modifier)
        ensures
            r.bits == 0x0080,
    {
        Modifier { bits: 0x0080 }
    }

    /// The crossed out modifier alone.
    pub fn crossed_out() -> (r: Modifier)
        ensures
            r.bits == 0x0100,
    {
        Modifier { bits: 0x0100 }
    }

    /// The set of no modifier.
    pub fn empty() -> (r: Modifier)
        ensures
            r.bits == 0,
    {
        Modifier { bits: 0 }
    }

    /// The set of every modifier.
    pub fn all() -> (r: Modifier)
        ensures
            r.bits == 0x01ff,
    {
        Modifier { bits: 0x01ff }
    }
}

/// Foreground and background colors plus the modifiers to add and to remove.
///
/// `None` for a color means "keep whatever is underneath".
#[derive(Debug, Clone, Copy, PartialEq, Eq, Hash, Structural)]
pub struct Style {
    pub fg: Option<Color>,
    pub bg: Option<Color>,
    pub add_modifier: Modifier,
    pub sub_modifier: Modifier,
}

/// The style that changes nothing.
pub open spec fn plain_style() -> Style {
    Style { fg: None, bg: None, add_modifier: Modifier { bits: 0 }, sub_modifier: Modifier { bits: 0 } }
}

/// The style that resets colors and removes every modifier.
pub open spec fn reset_style_value() -> Style {
    Style {
        fg: Some(Color::Reset),
        bg: Some(Color::Reset),
        add_modifier: Modifier { bits: 0 },
        sub_modifier: Modifier { bits: 0x01ff },
    }
}

/// `base` with `other` laid over it: colors that `other` sets win, and the
/// modifiers that `other` adds or removes override those of `base`.
pub open spec fn patched(base: Style, other: Style) -> Style {
    Style {
        fg: if other.fg is Some { other.fg } else { base.fg },
        bg: if other.bg is Some { other.bg } else { base.bg },
        add_modifier: Modifier {
            bits: (base.add_modifier.bits & !other.sub_modifier.bits) | other.add_modifier.bits,
        },
        sub_modifier: Modifier {
            bits: (base.sub_modifier.bits & !other.add_modifier.bits) | other.sub_modifier.bits,
        },
    }
}

impl Default for Style {
    fn default() -> (r: Style)
        ensures
            r == plain_style(),
    {
        Style::new()
    }
}

impl Style {
    /// The style that changes nothing.
    pub fn new() -> (r: Style)
        ensures
            r == plain_style(),
    {
        Style { fg: None, bg: None, add_modifier: Modifier::empty(), sub_modifier: Modifier::empty() }
    }

    /// The style that resets both colors and removes every modifier.
    pub fn reset() -> (r: Style)
        ensures
            r == reset_style_value(),
    {
        Style {
            fg: Some(Color::Reset),
            bg: Some(Color::Reset),
            add_modifier: Modifier::empty(),
            sub_modifier: Modifier::all(),
        }
    }

    /// Sets the foreground color.
    pub fn fg(self, color: Color) -> (r: Style)
        ensures
            r == (Style { fg: Some(color), ..self }),
    {
        Style { fg: Some(color), ..self }
    }

    /// Sets the background color.
    pub fn bg(self, color: Color) -> (r: Style)
        ensures
            r == (Style { bg: Some(color), ..self }),
    {
        Style { bg: Some(color), ..self }
    }

    /// Adds the given modifiers, and stops removing them.
    pub fn add_modifier(self, modifier: Modifier) -> (r: Style)
        ensures
            r == (Style {
                add_modifier: Modifier { bits: self.add_modifier.bits | modifier.bits },
                sub_modifier: Modifier { bits: self.sub_modifier.bits & !modifier.bits },
                ..self
            }),
    {
        Style {
            add_modifier: Modifier { bits: self.add_modifier.bits | modifier.bits },
            sub_modifier: Modifier { bits: self.sub_modifier.bits & !modifier.bits },
            ..self
        }
    }

    /// Removes the given modifiers, and stops adding them.
    pub fn remove_modifier(self, modifier: Modifier) -> (r: Style)
        ensures
            r == (Style {
                add_modifier: Modifier { bits: self.add_modifier.bits & !modifier.bits },
                sub_modifier: Modifier { bits: self.sub_modifier.bits | modifier.bits },
                ..self
            }),
    {
        Style {
            add_modifier: Modifier { bits: self.add_modifier.bits & !modifier.bits },
            sub_modifier: Modifier { bits: self.sub_modifier.bits | modifier.bits },
            ..self
        }
    }

    /// Lays `other` over this style.
    pub fn patch(self, other: Style) -> (r: Style)
        ensures
            r == patched(self, other),
    {
        Style {
            fg: if other.fg.is_some() { other.fg } else { self.fg },
            bg: if other.bg.is_some() { other.bg } else { self.bg },
            add_modifier: Modifier {
                bits: (self.add_modifier.bits & !other.sub_modifier.bits) | other.add_modifier.bits,
            },
            sub_modifier: Modifier {
                bits: (self.sub_modifier.bits & !other.add_modifier.bits) | other.sub_modifier.bits,
            },
        }
    }
}

/// Whether every bit of both modifier sets names a modifier.
pub open spec fn modifiers_valid(s: Style) -> bool {
    s.add_modifier.bits & !0x01ffu16 == 0 && s.sub_modifier.bits & !0x01ffu16 == 0
}

/// Laying the reset style over a style whose modifier bits all name
/// modifiers gives the reset style itself.
pub proof fn law_patch_with_reset(base: Style)
    requires
        modifiers_valid(base),
    ensures
        patched(base, reset_style_value()) == reset_style_value(),
{
    let a = base.add_modifier.bits;
    let b = base.sub_modifier.bits;
    assert((a & !0x01ffu16) | 0u16 == 0u16) by (bit_vector)
        requires
            a & !0x01ffu16 == 0,
    ;
    assert((b & !0u16) | 0x01ffu16 == 0x01ffu16) by (bit_vector)
        requires
            b & !0x01ffu16 == 0,
    ;
}

/// Laying the style that changes nothing over any style leaves it as it is.
pub proof fn law_patch_with_plain(base: Style)
    ensures
        patched(base, plain_style()) == base,
{
    let a = base.add_modifier.bits;
    let b = base.sub_modifier.bits;
    assert((a & !0u16) | 0u16 == a) by (bit_vector);
    assert((b & !0u16) | 0u16 == b) by (bit_vector);
}

} // verus!
