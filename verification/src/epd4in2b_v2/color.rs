use vstd::prelude::*;

verus! {

/// The three inks a pixel of the panel can show.
///
/// A pixel is stored as one bit on each of two planes:
///
/// | colour | black plane | red plane |
/// |--------|-------------|-----------|
/// | White  | 1           | 0         |
/// | Black  | 0           | 0         |
/// | Red    | 1           | 1         |
#[derive(Clone, Copy, Debug, PartialEq, Eq, Structural)]
pub enum Color {
    White,
    Black,
    Red,
}

impl Color {
    /// The bit this colour stores on the black plane.
    #[verifier::when_used_as_spec(spec_black_bit)]
    pub fn black_bit(self) -> (bit: bool)
        ensures
            bit == self.spec_black_bit(),
    {
        match self {
            Color::White => true,
            Color::Black => false,
            Color::Red => true,
        }
    }

    /// The bit this colour stores on the black plane.
    pub open spec fn spec_black_bit(self) -> bool {
        self != Color::Black
    }

    /// The bit this colour stores on the red plane.
    #[verifier::when_used_as_spec(spec_red_bit)]
    pub fn red_bit(self) -> (bit: bool)
        ensures
            bit == self.spec_red_bit(),
    {
        match self {
            Color::White => false,
            Color::Black => false,
            Color::Red => true,
        }
    }

    /// The bit this colour stores on the red plane.
    pub open spec fn spec_red_bit(self) -> bool {
        self == Color::Red
    }

    /// The colour that a pair of plane bits shows. The pair (black 0, red 1)
    /// is never stored by the frame buffer; it reads as black.
    pub open spec fn from_bits(black: bool, red: bool) -> Color {
        if !black {
            Color::Black
        } else if red {
            Color::Red
        } else {
            Color::White
        }
    }

    /// Every colour is recovered from its two plane bits.
    pub proof fn lemma_bits_roundtrip(self)
        ensures
            Color::from_bits(self.black_bit(), self.red_bit()) == self,
            !(self.red_bit() && !self.black_bit()),
    {
    }
}

} // verus!
