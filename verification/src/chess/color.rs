//! The two sides.

use vstd::prelude::*;
use vstd::std_specs::ops::NotSpecImpl;

verus! {

#[derive(Debug, Clone, Copy, PartialEq, Eq, Structural)]
pub enum Color {
    White,
    Black,
}

impl Color {
    /// White is 0, Black is 1.
    pub open spec fn spec_ordinal(self) -> u8 {
        match self {
            Color::White => 0,
            Color::Black => 1,
        }
    }

    /// The other side.
    pub open spec fn flip(self) -> Color {
        match self {
            Color::White => Color::Black,
            Color::Black => Color::White,
        }
    }

    /// The side with the given ordinal: 0 for White, anything else for Black.
    pub open spec fn spec_from_ordinal(value: u8) -> Color {
        if value == 0 {
            Color::White
        } else {
            Color::Black
        }
    }

    /// White is 0, Black is 1.
    pub fn from_ordinal(value: u8) -> (r: Color)
        requires
            value < 2,
        ensures
            r == Color::spec_from_ordinal(value),
            r.spec_ordinal() == value,
    {
        if value == 0 {
            Color::White
        } else {
            Color::Black
        }
    }

    /// White is 0, Black is 1.
    pub fn ordinal(&self) -> (r: u8)
        ensures
            r == self.spec_ordinal(),
            r < 2,
    {
        match self {
            Color::White => 0,
            Color::Black => 1,
        }
    }

    /// The other side.
    pub fn opposite(&self) -> (r: Color)
        ensures
            r == self.flip(),
    {
        match self {
            Color::White => Color::Black,
            Color::Black => Color::White,
        }
    }

    /// The index of this side in a two-element table.
    pub fn idx(&self) -> (r: usize)
        ensures
            r == self.spec_ordinal(),
            r < 2,
    {
        match self {
            Color::White => 0,
            Color::Black => 1,
        }
    }
}

impl core::ops::Not for Color {
    type Output = Color;

    fn not(self) -> (r: Color) {
        match self {
            Color::White => Color::Black,
            Color::Black => Color::White,
        }
    }
}

impl NotSpecImpl for Color {
    open spec fn obeys_not_spec() -> bool {
        true
    }

    open spec fn not_req(self) -> bool {
        true
    }

    open spec fn not_spec(self) -> Color {
        self.flip()
    }
}

/// Flipping a side twice gives it back, and the two sides differ.
pub proof fn lemma_flip_involution(c: Color)
    ensures
        c.flip().flip() == c,
        c.flip() != c,
{
}

} // verus!
