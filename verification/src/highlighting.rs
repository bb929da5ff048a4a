//! The classes that a highlighter sorts scalar values into, and their colours.

use vstd::prelude::*;

verus! {

/// A colour, by its red, green and blue parts.
#[derive(Clone, Copy, Debug, PartialEq, Eq, Structural)]
pub struct Color {
    pub red: u8,
    pub green: u8,
    pub blue: u8,
}

/// The class of one position of a line.
#[derive(Clone, Copy, Debug, PartialEq, Eq, Structural)]
pub enum Type {
    /// No class: shown in the default colour.
    Plain,
    /// Part of a number.
    Number,
}

impl Type {
    /// The class of the scalar value `c`, taken by itself: a decimal digit of ASCII is
    /// part of a number, and nothing else is.
    pub open spec fn of(c: char) -> Type {
        if '0' <= c && c <= '9' {
            Type::Number
        } else {
            Type::Plain
        }
    }

    /// The colour in which positions of this class are shown.
    pub open spec fn color(self) -> Color {
        match self {
            Type::Number => Color { red: 220, green: 163, blue: 163 },
            Type::Plain => Color { red: 255, green: 255, blue: 255 },
        }
    }

    /// Classifies one scalar value.
    pub fn classify(c: char) -> (class: Type)
        ensures
            class == Type::of(c),
    {
        if '0' <= c && c <= '9' {
            Type::Number
        } else {
            Type::Plain
        }
    }

    /// The colour in which positions of this class are shown.
    pub fn to_color(&self) -> (color: Color)
        ensures
            color == self.color(),
    {
        match self {
            Type::Number => Color { red: 220, green: 163, blue: 163 },
            _ => Color { red: 255, green: 255, blue: 255 },
        }
    }
}

} // verus!
