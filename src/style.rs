use vstd::prelude::*;

verus! {

/// A terminal color.
#[derive(Clone, Copy, Debug, PartialEq, Eq, Structural)]
pub enum Hue {
    Black,
    Blue,
    Green,
    Red,
    Cyan,
    Magenta,
    Yellow,
    White,
    Ansi256(u8),
    Rgb(u8, u8, u8),
}

/// A terminal style: colors and emphasis that a color-capable sink applies to
/// the bytes written while it is active.
#[derive(Clone, Copy, Debug, PartialEq, Eq, Structural)]
pub struct Style {
    pub fg: Option<Hue>,
    pub bg: Option<Hue>,
    pub bold: bool,
    pub intense: bool,
    pub underline: bool,
    pub dimmed: bool,
    pub italic: bool,
}

/// The style with no color and no emphasis.
pub open spec fn plain() -> Style {
    Style {
        fg: None,
        bg: None,
        bold: false,
        intense: false,
        underline: false,
        dimmed: false,
        italic: false,
    }
}

/// Bold text in foreground color `h`, nothing else set.
pub open spec fn bold_in(h: Hue) -> Style {
    Style { fg: Some(h), bold: true, ..plain() }
}

impl Style {
    /// The style with no color and no emphasis.
    pub fn new() -> (r: Style)
        ensures
            r == plain(),
    {
        Style {
            fg: None,
            bg: None,
            bold: false,
            intense: false,
            underline: false,
            dimmed: false,
            italic: false,
        }
    }

    /// Replaces the foreground color.
    pub fn set_fg(&mut self, fg: Option<Hue>)
        ensures
            *final(self) == (Style { fg, ..*old(self) }),
    {
        self.fg = fg;
    }

    /// Replaces the background color.
    pub fn set_bg(&mut self, bg: Option<Hue>)
        ensures
            *final(self) == (Style { bg, ..*old(self) }),
    {
        self.bg = bg;
    }

    /// Turns bold on or off.
    pub fn set_bold(&mut self, yes: bool)
        ensures
            *final(self) == (Style { bold: yes, ..*old(self) }),
    {
        self.bold = yes;
    }
}

} // verus!
