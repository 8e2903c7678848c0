use vstd::prelude::*;

verus! {

/// A terminal color.
#[derive(Debug, Clone, Copy, PartialEq, Eq, Structural)]
pub enum Color {
    Reset,
    Black,
    Red,
    Green,
    Yellow,
    Blue,
    White,
}

/// A terminal text attribute.
#[derive(Debug, Clone, Copy, PartialEq, Eq, Structural)]
pub enum TextStyle {
    Reset,
    Bold,
    Italic,
    Underlined,
    NoHidden,
}

/// The color reserved for painting the focused node.
pub const FOCUS_COLOR: Color = Color::Green;

impl Color {
    pub fn black() -> (r: Self)
        ensures
            r == Color::Black,
    {
        Color::Black
    }

    pub fn red() -> (r: Self)
        ensures
            r == Color::Red,
    {
        Color::Red
    }

    pub fn green() -> (r: Self)
        ensures
            r == Color::Green,
    {
        Color::Green
    }

    pub fn yellow() -> (r: Self)
        ensures
            r == Color::Yellow,
    {
        Color::Yellow
    }

    pub fn white() -> (r: Self)
        ensures
            r == Color::White,
    {
        Color::White
    }

    pub fn blue() -> (r: Self)
        ensures
            r == Color::Blue,
    {
        Color::Blue
    }

    pub fn reset() -> (r: Self)
        ensures
            r == Color::Reset,
    {
        Color::Reset
    }
}

impl Default for Color {
    fn default() -> (r: Self)
        ensures
            r == Color::Reset,
    {
        Color::Reset
    }
}

impl TextStyle {
    pub fn underlined() -> (r: Self)
        ensures
            r == TextStyle::Underlined,
    {
        TextStyle::Underlined
    }

    pub fn italic() -> (r: Self)
        ensures
            r == TextStyle::Italic,
    {
        TextStyle::Italic
    }

    pub fn bold() -> (r: Self)
        ensures
            r == TextStyle::Bold,
    {
        TextStyle::Bold
    }

    pub fn no_hidden() -> (r: Self)
        ensures
            r == TextStyle::NoHidden,
    {
        TextStyle::NoHidden
    }
}

impl Default for TextStyle {
    fn default() -> (r: Self)
        ensures
            r == TextStyle::Reset,
    {
        TextStyle::Reset
    }
}

} // verus!
