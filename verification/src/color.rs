use vstd::prelude::*;

verus! {

/// The two sides of a game.
#[derive(Copy, Clone, Debug, PartialEq, Eq, Structural)]
pub enum Color {
    Black,
    White,
}

impl Color {
    /// The other side.
    pub open spec fn flipped(self) -> Color {
        match self {
            Color::White => Color::Black,
            Color::Black => Color::White,
        }
    }

    /// Gives the opponent of `self`.
    pub fn flip(self) -> (c: Color)
        ensures
            c == self.flipped(),
            c != self,
    {
        match self {
            Color::White => Color::Black,
            Color::Black => Color::White,
        }
    }
}

impl core::ops::Not for Color {
    type Output = Color;

    /// The other side, as `flip` gives it.
    fn not(self) -> (c: Color) {
        self.flip()
    }
}

impl vstd::std_specs::ops::NotSpecImpl for Color {
    open spec fn obeys_not_spec() -> bool {
        true
    }

    open spec fn not_req(self) -> bool {
        true
    }

    open spec fn not_spec(self) -> Color {
        self.flipped()
    }
}


} // verus!
