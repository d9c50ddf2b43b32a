//! Drawing styles of the Game Boy's frame-buffer graphics.

use vstd::prelude::*;

verus! {

/// Width of the screen in pixels.
pub const SCREEN_WIDTH: u8 = 160;

/// Height of the drawing area in pixels.
pub const SCREEN_HEIGHT: u8 = 160;

/// Width of the screen in tiles of eight pixels.
pub const TILE_WIDTH: u8 = 20;

/// Height of the drawing area in tiles of eight pixels.
pub const TILE_HEIGHT: u8 = 20;

/// How a drawing routine combines its pixels with those already drawn.
#[derive(Clone, Copy, Debug, PartialEq, Eq, Structural)]
pub enum DrawingMode {
    /// Overwrites the existing pixels.
    Solid,
    /// Performs a logical OR.
    Or,
    /// Performs a logical XOR.
    Xor,
    /// Performs a logical AND.
    And,
}

/// The four shades of the first Game Boy.
#[derive(Clone, Copy, Debug, PartialEq, Eq, Structural)]
pub enum DmgColor {
    /// The lightest shade.
    White,
    /// Light grey.
    LightGrey,
    /// Dark grey.
    DarkGrey,
    /// The darkest shade.
    Black,
}

impl DrawingMode {
    /// The number by which the hardware library knows the mode.
    pub open spec fn code(self) -> u8 {
        match self {
            DrawingMode::Solid => 0,
            DrawingMode::Or => 1,
            DrawingMode::Xor => 2,
            DrawingMode::And => 3,
        }
    }

    /// The number by which the hardware library knows the mode.
    pub fn to_u8(self) -> (code: u8)
        ensures
            code == self.code(),
    {
        match self {
            DrawingMode::Solid => 0,
            DrawingMode::Or => 1,
            DrawingMode::Xor => 2,
            DrawingMode::And => 3,
        }
    }

    /// The mode with the number `value`, which has to be one of 0 to 3.
    pub fn from_u8(value: u8) -> (mode: DrawingMode)
        requires
            value <= 3,
        ensures
            mode.code() == value,
    {
        if value == 0 {
            DrawingMode::Solid
        } else if value == 1 {
            DrawingMode::Or
        } else if value == 2 {
            DrawingMode::Xor
        } else {
            DrawingMode::And
        }
    }
}

impl DmgColor {
    /// The number by which the hardware library knows the shade.
    pub open spec fn code(self) -> u8 {
        match self {
            DmgColor::White => 0,
            DmgColor::LightGrey => 1,
            DmgColor::DarkGrey => 2,
            DmgColor::Black => 3,
        }
    }

    /// The number by which the hardware library knows the shade.
    pub fn to_u8(self) -> (code: u8)
        ensures
            code == self.code(),
    {
        match self {
            DmgColor::White => 0,
            DmgColor::LightGrey => 1,
            DmgColor::DarkGrey => 2,
            DmgColor::Black => 3,
        }
    }

    /// The shade with the number `value`, which has to be one of 0 to 3.
    pub fn from_u8(value: u8) -> (color: DmgColor)
        requires
            value <= 3,
        ensures
            color.code() == value,
    {
        if value == 0 {
            DmgColor::White
        } else if value == 1 {
            DmgColor::LightGrey
        } else if value == 2 {
            DmgColor::DarkGrey
        } else {
            DmgColor::Black
        }
    }
}

/// The style in which the drawing routines work: two shades and a mode.
#[derive(Clone, Copy, Debug, PartialEq, Eq, Structural)]
pub struct DrawingStyle {
    /// The shade of what is drawn.
    pub foreground: DmgColor,
    /// The shade behind it.
    pub background: DmgColor,
    /// How new pixels combine with old ones.
    pub drawing_mode: DrawingMode,
}

/// The drawing surface, as far as the library keeps track of it: the style
/// that was applied last.
#[derive(Clone, Copy, Debug, PartialEq, Eq, Structural)]
pub struct DrawingStream {
    /// The style in force.
    pub style: DrawingStyle,
}

impl DrawingStyle {
    /// Black drawings on a white background, as when the Game Boy starts.
    pub fn default() -> (style: DrawingStyle)
        ensures
            style == (DrawingStyle {
                foreground: DmgColor::Black,
                background: DmgColor::White,
                drawing_mode: DrawingMode::Solid,
            }),
    {
        DrawingStyle {
            foreground: DmgColor::Black,
            background: DmgColor::White,
            drawing_mode: DrawingMode::Solid,
        }
    }

    /// White drawings on a black background.
    pub fn reversed() -> (style: DrawingStyle)
        ensures
            style == (DrawingStyle {
                foreground: DmgColor::White,
                background: DmgColor::Black,
                drawing_mode: DrawingMode::Solid,
            }),
    {
        DrawingStyle {
            foreground: DmgColor::White,
            background: DmgColor::Black,
            drawing_mode: DrawingMode::Solid,
        }
    }

    /// Sets the foreground and hands the style back for the next setting.
    pub fn foreground(&mut self, color: DmgColor) -> (style: &mut DrawingStyle)
        ensures
            *style == (DrawingStyle { foreground: color, ..*old(self) }),
            *final(self) == *final(style),
    {
        self.foreground = color;
        self
    }

    /// Sets the background and hands the style back for the next setting.
    pub fn background(&mut self, color: DmgColor) -> (style: &mut DrawingStyle)
        ensures
            *style == (DrawingStyle { background: color, ..*old(self) }),
            *final(self) == *final(style),
    {
        self.background = color;
        self
    }

    /// Sets the drawing mode and hands the style back for the next setting.
    pub fn drawing_mode(&mut self, mode: DrawingMode) -> (style: &mut DrawingStyle)
        ensures
            *style == (DrawingStyle { drawing_mode: mode, ..*old(self) }),
            *final(self) == *final(style),
    {
        self.drawing_mode = mode;
        self
    }

    /// The three numbers that the hardware library takes for the style:
    /// foreground, background and mode.
    pub fn codes(&self) -> (codes: (u8, u8, u8))
        ensures
            codes == (self.foreground.code(), self.background.code(), self.drawing_mode.code()),
    {
        (self.foreground.to_u8(), self.background.to_u8(), self.drawing_mode.to_u8())
    }

    /// Puts the style in force on `stream`.
    pub fn apply(&self, stream: &mut DrawingStream)
        ensures
            final(stream).style == *self,
    {
        stream.set_style(*self);
    }
}

impl DrawingStream {
    /// A drawing surface in the style in which the Game Boy starts.
    pub fn new() -> (stream: DrawingStream)
        ensures
            stream.style == (DrawingStyle {
                foreground: DmgColor::Black,
                background: DmgColor::White,
                drawing_mode: DrawingMode::Solid,
            }),
    {
        DrawingStream { style: DrawingStyle::default() }
    }

    /// Puts `style` in force.
    pub fn set_style(&mut self, style: DrawingStyle)
        ensures
            final(self).style == style,
    {
        self.style = style;
    }

    /// Tells whether the tile at column `x` and row `y` is on the screen, so
    /// that the cursor may be put there.
    pub fn cursor_fits(x: u8, y: u8) -> (fits: bool)
        ensures
            fits == (x < TILE_WIDTH && y < TILE_HEIGHT),
    {
        x < TILE_WIDTH && y < TILE_HEIGHT
    }

    /// Tells whether the pixel at column `x` and row `y` is on the screen.
    pub fn on_screen(x: u8, y: u8) -> (fits: bool)
        ensures
            fits == (x < SCREEN_WIDTH && y < SCREEN_HEIGHT),
    {
        x < SCREEN_WIDTH && y < SCREEN_HEIGHT
    }
}

} // verus!
