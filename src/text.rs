//! Text colors, appearance and styles, and the theme that widgets take
//! their styles from.
use vstd::prelude::*;

verus! {

/// Color intensity
#[derive(Clone, Copy, Debug, PartialEq, Eq, Structural)]
pub enum Intensity {
    Normal,
    Bright,
}

/// Text color
#[derive(Clone, Copy, Debug, PartialEq, Eq, Structural)]
pub enum Color {
    Black(Intensity),
    Red(Intensity),
    Green(Intensity),
    Yellow(Intensity),
    Blue(Intensity),
    Magenta(Intensity),
    Cyan(Intensity),
    White(Intensity),
    Rgb(u8, u8, u8),
}

/// Font weight
///
/// Some terminals treat this as intensity, altering the color rather than
/// the font weight.
#[derive(Clone, Copy, Debug, PartialEq, Eq, Structural)]
pub enum Weight {
    /// Normal weight (or intensity)
    Normal,
    /// Bold weight (or increased intensity)
    Bold,
    /// Thin weight (or faint / dim / decreased intensity)
    Thin,
}

impl Default for Weight {
    fn default() -> (r: Weight)
        ensures
            r == Weight::Normal,
    {
        Weight::Normal
    }
}

/// Text appearance
#[derive(Clone, Copy, Debug, PartialEq, Eq, Structural)]
pub struct Appearance {
    pub italic: bool,
    pub strikethrough: bool,
    pub underline: bool,
    pub reverse: bool,
    pub weight: Weight,
}

/// Terminal text attributes to send for a change of appearance
#[derive(Clone, Copy, Debug, PartialEq, Eq, Structural)]
pub struct Attributes {
    pub bold: bool,
    pub dim: bool,
    pub normal_intensity: bool,
    pub italic: bool,
    pub no_italic: bool,
    pub crossed_out: bool,
    pub not_crossed_out: bool,
    pub underlined: bool,
    pub no_underline: bool,
    pub reverse: bool,
    pub no_reverse: bool,
}

impl Attributes {
    /// Whether no attribute is set
    pub fn is_empty(&self) -> (r: bool)
        ensures
            r == !(self.bold || self.dim || self.normal_intensity || self.italic || self.no_italic
                || self.crossed_out || self.not_crossed_out || self.underlined || self.no_underline
                || self.reverse || self.no_reverse),
    {
        !(self.bold || self.dim || self.normal_intensity || self.italic || self.no_italic
            || self.crossed_out || self.not_crossed_out || self.underlined || self.no_underline
            || self.reverse || self.no_reverse)
    }
}

impl Default for Appearance {
    fn default() -> (r: Appearance)
        ensures
            r == (Appearance {
                italic: false,
                strikethrough: false,
                underline: false,
                reverse: false,
                weight: Weight::Normal,
            }),
    {
        Appearance {
            italic: false,
            strikethrough: false,
            underline: false,
            reverse: false,
            weight: Weight::Normal,
        }
    }
}

impl Appearance {
    /// Set font weight
    pub fn with_weight(self, weight: Weight) -> (r: Appearance)
        ensures
            r == (Appearance { weight, ..self }),
    {
        Appearance { weight, ..self }
    }

    /// Set `italic` text appearance
    pub fn with_italic(self, enable: bool) -> (r: Appearance)
        ensures
            r == (Appearance { italic: enable, ..self }),
    {
        Appearance { italic: enable, ..self }
    }

    /// Set `strikethrough` text appearance
    pub fn with_strikethrough(self, enable: bool) -> (r: Appearance)
        ensures
            r == (Appearance { strikethrough: enable, ..self }),
    {
        Appearance { strikethrough: enable, ..self }
    }

    /// Set `underline` text appearance
    pub fn with_underline(self, enable: bool) -> (r: Appearance)
        ensures
            r == (Appearance { underline: enable, ..self }),
    {
        Appearance { underline: enable, ..self }
    }

    /// Set `reverse` text appearance
    pub fn with_reverse(self, enable: bool) -> (r: Appearance)
        ensures
            r == (Appearance { reverse: enable, ..self }),
    {
        Appearance { reverse: enable, ..self }
    }

    /// Attributes that change the terminal from appearance `before` to this
    /// one: this appearance's own attributes, its weight when that changed,
    /// and the reset of every attribute that `before` had
    pub fn changed(&self, before: Appearance) -> (r: Attributes)
        ensures
            r.italic == self.italic,
            r.crossed_out == self.strikethrough,
            r.underlined == self.underline,
            r.reverse == self.reverse,
            r.bold == (self.weight != before.weight && self.weight == Weight::Bold),
            r.dim == (self.weight != before.weight && self.weight == Weight::Thin),
            r.normal_intensity == (self.weight != before.weight && self.weight == Weight::Normal),
            r.no_italic == before.italic,
            r.not_crossed_out == before.strikethrough,
            r.no_underline == before.underline,
            r.no_reverse == before.reverse,
    {
        let weight_changed = self.weight != before.weight;
        Attributes {
            bold: weight_changed && self.weight == Weight::Bold,
            dim: weight_changed && self.weight == Weight::Thin,
            normal_intensity: weight_changed && self.weight == Weight::Normal,
            italic: self.italic,
            no_italic: before.italic,
            crossed_out: self.strikethrough,
            not_crossed_out: before.strikethrough,
            underlined: self.underline,
            no_underline: before.underline,
            reverse: self.reverse,
            no_reverse: before.reverse,
        }
    }
}

/// Text style
#[derive(Clone, Copy, Debug, PartialEq, Eq, Structural)]
pub struct TextStyle {
    /// Background color
    background: Color,
    /// Foreground text color
    foreground: Color,
    /// Text appearance
    appearance: Appearance,
}

impl Default for TextStyle {
    /// Bright white on black, with the default appearance
    fn default() -> (r: TextStyle)
        ensures
            r.background_spec() == Color::Black(Intensity::Normal),
            r.foreground_spec() == Color::White(Intensity::Bright),
            r.appearance_spec() == Appearance::default_spec(),
    {
        TextStyle {
            background: Color::Black(Intensity::Normal),
            foreground: Color::White(Intensity::Bright),
            appearance: Appearance::default(),
        }
    }
}

impl Appearance {
    /// The default appearance: no attribute, normal weight
    pub open spec fn default_spec() -> Appearance {
        Appearance {
            italic: false,
            strikethrough: false,
            underline: false,
            reverse: false,
            weight: Weight::Normal,
        }
    }
}

impl TextStyle {
    pub closed spec fn background_spec(self) -> Color {
        self.background
    }

    pub closed spec fn foreground_spec(self) -> Color {
        self.foreground
    }

    pub closed spec fn appearance_spec(self) -> Appearance {
        self.appearance
    }

    /// Set the background color
    pub fn with_background(self, clr: Color) -> (r: TextStyle)
        ensures
            r.background_spec() == clr,
            r.foreground_spec() == self.foreground_spec(),
            r.appearance_spec() == self.appearance_spec(),
    {
        TextStyle { background: clr, ..self }
    }

    /// Set the foreground color
    pub fn with_foreground(self, clr: Color) -> (r: TextStyle)
        ensures
            r.foreground_spec() == clr,
            r.background_spec() == self.background_spec(),
            r.appearance_spec() == self.appearance_spec(),
    {
        TextStyle { foreground: clr, ..self }
    }

    /// Set the text appearance
    pub fn with_appearance(self, app: Appearance) -> (r: TextStyle)
        ensures
            r.appearance_spec() == app,
            r.background_spec() == self.background_spec(),
            r.foreground_spec() == self.foreground_spec(),
    {
        TextStyle { appearance: app, ..self }
    }

    /// Get the background color
    pub fn background(&self) -> (r: Color)
        ensures
            r == self.background_spec(),
    {
        self.background
    }

    /// Get the foreground color
    pub fn foreground(&self) -> (r: Color)
        ensures
            r == self.foreground_spec(),
    {
        self.foreground
    }

    /// Get the text appearance
    pub fn appearance(&self) -> (r: Appearance)
        ensures
            r == self.appearance_spec(),
    {
        self.appearance
    }
}

/// The colors that widgets take their styles from
#[derive(Clone, Copy, Debug, PartialEq, Eq, Structural)]
pub struct Theme {
    pub background: Color,
    pub foreground: Color,
    pub primary: Color,
    pub secondary: Color,
    pub tertiary: Color,
    pub light_shadow: Color,
    pub dark_shadow: Color,
}

impl Default for Theme {
    fn default() -> (r: Theme)
        ensures
            r == (Theme {
                background: Color::Black(Intensity::Normal),
                foreground: Color::White(Intensity::Normal),
                primary: Color::Yellow(Intensity::Normal),
                secondary: Color::Cyan(Intensity::Bright),
                tertiary: Color::Magenta(Intensity::Normal),
                light_shadow: Color::White(Intensity::Bright),
                dark_shadow: Color::Black(Intensity::Bright),
            }),
    {
        Theme {
            background: Color::Black(Intensity::Normal),
            foreground: Color::White(Intensity::Normal),
            primary: Color::Yellow(Intensity::Normal),
            secondary: Color::Cyan(Intensity::Bright),
            tertiary: Color::Magenta(Intensity::Normal),
            light_shadow: Color::White(Intensity::Bright),
            dark_shadow: Color::Black(Intensity::Bright),
        }
    }
}

} // verus!
