use vstd::prelude::*;

verus! {

/// A filled rectangle of a character: columns `x0` up to, not including,
/// `x1` and rows `y0` up to, not including, `y1`, counted from the top
/// left corner of the character's cell.
#[derive(Clone, Copy, Debug, PartialEq, Eq, Structural)]
pub struct Stroke {
    pub x0: u32,
    pub y0: u32,
    pub x1: u32,
    pub y1: u32,
}

/// The stroke with the given corners.
pub open spec fn spec_bar(x0: u32, y0: u32, x1: u32, y1: u32) -> Stroke {
    Stroke { x0, y0, x1, y1 }
}

/// The stroke with the given corners.
#[verifier::when_used_as_spec(spec_bar)]
pub fn bar(x0: u32, y0: u32, x1: u32, y1: u32) -> (stroke: Stroke)
    ensures
        stroke == spec_bar(x0, y0, x1, y1),
{
    Stroke { x0, y0, x1, y1 }
}

/// The strokes of a character of the small font, in a cell five pixels
/// wide and seven high. A character the font does not know is a block.
pub open spec fn simple_strokes(ch: char) -> Seq<Stroke> {
    if ch == '-' {
        seq![
            bar(0, 3, 4, 4),
        ]
    } else if ch == '1' {
        seq![
            bar(2, 0, 3, 7),
        ]
    } else if ch == '2' {
        seq![
            bar(0, 0, 4, 1), bar(0, 6, 4, 7), bar(3, 3, 4, 4),
        ]
    } else if ch == 'h' {
        seq![
            bar(0, 0, 1, 7), bar(0, 3, 4, 4),
        ]
    } else if ch == 'N' || ch == 'n' {
        seq![
            bar(0, 0, 1, 7), bar(3, 0, 4, 7), bar(1, 1, 2, 2),
            bar(2, 2, 3, 3),
        ]
    } else if ch == 'o' {
        seq![
            bar(1, 2, 4, 3), bar(1, 5, 4, 6), bar(0, 2, 1, 6),
            bar(4, 2, 5, 6),
        ]
    } else if ch == 'w' {
        seq![
            bar(0, 0, 1, 7), bar(4, 0, 5, 7), bar(2, 5, 3, 7),
        ]
    } else if ch == '+' {
        seq![
            bar(1, 3, 4, 4), bar(2, 1, 3, 6),
        ]
    } else {
        seq![
            bar(0, 0, 3, 5),
        ]
    }
}

/// The strokes of `simple_strokes`.
pub fn simple_stroke_list(ch: char) -> (strokes: Vec<Stroke>)
    ensures
        strokes@ == simple_strokes(ch),
{
    let strokes = match ch {
        '-' => vec![
            bar(0, 3, 4, 4),
        ],
        '1' => vec![
            bar(2, 0, 3, 7),
        ],
        '2' => vec![
            bar(0, 0, 4, 1), bar(0, 6, 4, 7), bar(3, 3, 4, 4),
        ],
        'h' => vec![
            bar(0, 0, 1, 7), bar(0, 3, 4, 4),
        ],
        'N' | 'n' => vec![
            bar(0, 0, 1, 7), bar(3, 0, 4, 7), bar(1, 1, 2, 2),
            bar(2, 2, 3, 3),
        ],
        'o' => vec![
            bar(1, 2, 4, 3), bar(1, 5, 4, 6), bar(0, 2, 1, 6),
            bar(4, 2, 5, 6),
        ],
        'w' => vec![
            bar(0, 0, 1, 7), bar(4, 0, 5, 7), bar(2, 5, 3, 7),
        ],
        '+' => vec![
            bar(1, 3, 4, 4), bar(2, 1, 3, 6),
        ],
        _ => vec![
            bar(0, 0, 3, 5),
        ],
    };
    assert(strokes@ =~= simple_strokes(ch));
    strokes
}

/// The strokes of a character of the large font, in a cell eight pixels
/// wide and twelve high. A space has no strokes; a character the font does
/// not know is a block.
pub open spec fn large_strokes(ch: char) -> Seq<Stroke> {
    if ch == '-' {
        seq![
            bar(1, 5, 7, 7),
        ]
    } else if ch == '1' {
        seq![
            bar(3, 0, 5, 12), bar(1, 1, 4, 2),
        ]
    } else if ch == '2' {
        seq![
            bar(1, 0, 7, 2), bar(1, 10, 7, 12), bar(1, 5, 7, 7),
            bar(5, 2, 7, 6),
        ]
    } else if ch == 'h' {
        seq![
            bar(0, 0, 2, 12), bar(0, 5, 6, 7), bar(4, 7, 6, 12),
        ]
    } else if ch == 'N' || ch == 'n' {
        seq![
            bar(0, 0, 2, 12), bar(5, 0, 7, 12), bar(2, 3, 3, 5),
            bar(3, 5, 4, 7), bar(4, 7, 5, 9),
        ]
    } else if ch == 'o' {
        seq![
            bar(1, 3, 6, 5), bar(1, 8, 6, 10), bar(0, 3, 2, 10),
            bar(5, 3, 7, 10),
        ]
    } else if ch == 'w' {
        seq![
            bar(0, 3, 2, 12), bar(6, 3, 8, 12), bar(2, 8, 4, 12),
            bar(4, 8, 6, 12),
        ]
    } else if ch == '+' {
        seq![
            bar(2, 5, 6, 7), bar(3, 2, 5, 10),
        ]
    } else if ch == 'A' {
        seq![
            bar(1, 0, 2, 12), bar(6, 0, 7, 12), bar(1, 5, 7, 6),
        ]
    } else if ch == 'M' {
        seq![
            bar(1, 0, 2, 12), bar(6, 0, 7, 12), bar(2, 1, 3, 2),
            bar(3, 2, 4, 4), bar(5, 4, 6, 5), bar(2, 4, 3, 5),
            bar(4, 2, 5, 4), bar(5, 1, 6, 2),
        ]
    } else if ch == 'P' {
        seq![
            bar(1, 0, 2, 12), bar(1, 0, 7, 1), bar(1, 5, 7, 6),
            bar(6, 1, 7, 5),
        ]
    } else if ch == '0' {
        seq![
            bar(1, 0, 7, 1), bar(1, 11, 7, 12), bar(1, 1, 2, 11),
            bar(6, 1, 7, 11),
        ]
    } else if ch == '3' {
        seq![
            bar(1, 0, 7, 1), bar(1, 5, 7, 6), bar(1, 11, 7, 12),
            bar(6, 1, 7, 5), bar(6, 6, 7, 11),
        ]
    } else if ch == '4' {
        seq![
            bar(1, 0, 2, 6), bar(6, 0, 7, 12), bar(1, 5, 7, 6),
        ]
    } else if ch == '5' {
        seq![
            bar(1, 0, 7, 1), bar(1, 5, 7, 6), bar(1, 11, 7, 12),
            bar(1, 1, 2, 5), bar(6, 6, 7, 11),
        ]
    } else if ch == '6' {
        seq![
            bar(1, 0, 7, 1), bar(1, 5, 7, 6), bar(1, 11, 7, 12),
            bar(1, 1, 2, 5), bar(1, 6, 2, 11), bar(6, 6, 7, 11),
        ]
    } else if ch == '7' {
        seq![
            bar(1, 0, 7, 1), bar(6, 1, 7, 12),
        ]
    } else if ch == '8' {
        seq![
            bar(1, 0, 7, 1), bar(1, 5, 7, 6), bar(1, 11, 7, 12),
            bar(1, 1, 2, 5), bar(6, 1, 7, 5), bar(1, 6, 2, 11),
            bar(6, 6, 7, 11),
        ]
    } else if ch == '9' {
        seq![
            bar(1, 0, 7, 1), bar(1, 5, 7, 6), bar(1, 11, 7, 12),
            bar(6, 1, 7, 5), bar(1, 6, 2, 11), bar(6, 6, 7, 11),
        ]
    } else if ch == '/' {
        seq![
            bar(1, 10, 2, 12), bar(2, 8, 3, 10), bar(3, 6, 4, 8),
            bar(4, 4, 5, 6), bar(5, 2, 6, 4), bar(6, 0, 7, 2),
        ]
    } else if ch == ':' {
        seq![
            bar(3, 3, 5, 5), bar(3, 7, 5, 9),
        ]
    } else if ch == ' ' {
        Seq::empty()
    } else {
        seq![
            bar(0, 0, 6, 8),
        ]
    }
}

/// The strokes of `large_strokes`.
pub fn large_stroke_list(ch: char) -> (strokes: Vec<Stroke>)
    ensures
        strokes@ == large_strokes(ch),
{
    let strokes = match ch {
        '-' => vec![
            bar(1, 5, 7, 7),
        ],
        '1' => vec![
            bar(3, 0, 5, 12), bar(1, 1, 4, 2),
        ],
        '2' => vec![
            bar(1, 0, 7, 2), bar(1, 10, 7, 12), bar(1, 5, 7, 7),
            bar(5, 2, 7, 6),
        ],
        'h' => vec![
            bar(0, 0, 2, 12), bar(0, 5, 6, 7), bar(4, 7, 6, 12),
        ],
        'N' | 'n' => vec![
            bar(0, 0, 2, 12), bar(5, 0, 7, 12), bar(2, 3, 3, 5),
            bar(3, 5, 4, 7), bar(4, 7, 5, 9),
        ],
        'o' => vec![
            bar(1, 3, 6, 5), bar(1, 8, 6, 10), bar(0, 3, 2, 10),
            bar(5, 3, 7, 10),
        ],
        'w' => vec![
            bar(0, 3, 2, 12), bar(6, 3, 8, 12), bar(2, 8, 4, 12),
            bar(4, 8, 6, 12),
        ],
        '+' => vec![
            bar(2, 5, 6, 7), bar(3, 2, 5, 10),
        ],
        'A' => vec![
            bar(1, 0, 2, 12), bar(6, 0, 7, 12), bar(1, 5, 7, 6),
        ],
        'M' => vec![
            bar(1, 0, 2, 12), bar(6, 0, 7, 12), bar(2, 1, 3, 2),
            bar(3, 2, 4, 4), bar(5, 4, 6, 5), bar(2, 4, 3, 5),
            bar(4, 2, 5, 4), bar(5, 1, 6, 2),
        ],
        'P' => vec![
            bar(1, 0, 2, 12), bar(1, 0, 7, 1), bar(1, 5, 7, 6),
            bar(6, 1, 7, 5),
        ],
        '0' => vec![
            bar(1, 0, 7, 1), bar(1, 11, 7, 12), bar(1, 1, 2, 11),
            bar(6, 1, 7, 11),
        ],
        '3' => vec![
            bar(1, 0, 7, 1), bar(1, 5, 7, 6), bar(1, 11, 7, 12),
            bar(6, 1, 7, 5), bar(6, 6, 7, 11),
        ],
        '4' => vec![
            bar(1, 0, 2, 6), bar(6, 0, 7, 12), bar(1, 5, 7, 6),
        ],
        '5' => vec![
            bar(1, 0, 7, 1), bar(1, 5, 7, 6), bar(1, 11, 7, 12),
            bar(1, 1, 2, 5), bar(6, 6, 7, 11),
        ],
        '6' => vec![
            bar(1, 0, 7, 1), bar(1, 5, 7, 6), bar(1, 11, 7, 12),
            bar(1, 1, 2, 5), bar(1, 6, 2, 11), bar(6, 6, 7, 11),
        ],
        '7' => vec![
            bar(1, 0, 7, 1), bar(6, 1, 7, 12),
        ],
        '8' => vec![
            bar(1, 0, 7, 1), bar(1, 5, 7, 6), bar(1, 11, 7, 12),
            bar(1, 1, 2, 5), bar(6, 1, 7, 5), bar(1, 6, 2, 11),
            bar(6, 6, 7, 11),
        ],
        '9' => vec![
            bar(1, 0, 7, 1), bar(1, 5, 7, 6), bar(1, 11, 7, 12),
            bar(6, 1, 7, 5), bar(1, 6, 2, 11), bar(6, 6, 7, 11),
        ],
        '/' => vec![
            bar(1, 10, 2, 12), bar(2, 8, 3, 10), bar(3, 6, 4, 8),
            bar(4, 4, 5, 6), bar(5, 2, 6, 4), bar(6, 0, 7, 2),
        ],
        ':' => vec![
            bar(3, 3, 5, 5), bar(3, 7, 5, 9),
        ],
        ' ' => Vec::new(),
        _ => vec![
            bar(0, 0, 6, 8),
        ],
    };
    assert(strokes@ =~= large_strokes(ch));
    strokes
}

/// The strokes of a character of the extra large font, in a cell sixteen
/// pixels wide and twenty-four high, for the characters that font knows.
pub open spec fn extra_large_strokes(ch: char) -> Option<Seq<Stroke>> {
    if ch == '-' {
        Some(seq![
            bar(2, 10, 14, 14),
        ])
    } else if ch == '0' {
        Some(seq![
            bar(2, 2, 14, 3), bar(2, 21, 14, 22), bar(2, 3, 3, 21),
            bar(13, 3, 14, 21),
        ])
    } else if ch == '1' {
        Some(seq![
            bar(7, 0, 9, 24), bar(2, 2, 8, 3),
        ])
    } else if ch == '2' {
        Some(seq![
            bar(2, 2, 14, 3), bar(2, 12, 14, 13), bar(2, 21, 14, 22),
            bar(13, 3, 14, 12), bar(2, 13, 3, 21),
        ])
    } else if ch == '3' {
        Some(seq![
            bar(2, 2, 14, 3), bar(2, 12, 14, 13), bar(2, 21, 14, 22),
            bar(13, 3, 14, 12), bar(13, 13, 14, 21),
        ])
    } else if ch == '4' {
        Some(seq![
            bar(2, 2, 3, 13), bar(13, 2, 14, 21), bar(2, 12, 14, 13),
        ])
    } else if ch == '5' {
        Some(seq![
            bar(2, 2, 14, 3), bar(2, 12, 14, 13), bar(2, 21, 14, 22),
            bar(2, 3, 3, 12), bar(13, 13, 14, 21),
        ])
    } else if ch == '6' {
        Some(seq![
            bar(2, 2, 14, 3), bar(2, 12, 14, 13), bar(2, 21, 14, 22),
            bar(2, 3, 3, 12), bar(13, 13, 14, 21),
        ])
    } else {
        None
    }
}

/// The strokes of `extra_large_strokes`.
pub fn extra_large_stroke_list(ch: char) -> (strokes: Option<Vec<Stroke>>)
    ensures
        match strokes {
            Some(list) => extra_large_strokes(ch) == Some(list@),
            None => extra_large_strokes(ch) is None,
        },
{
    let strokes = match ch {
        '-' => Some(vec![
            bar(2, 10, 14, 14),
        ]),
        '0' => Some(vec![
            bar(2, 2, 14, 3), bar(2, 21, 14, 22), bar(2, 3, 3, 21),
            bar(13, 3, 14, 21),
        ]),
        '1' => Some(vec![
            bar(7, 0, 9, 24), bar(2, 2, 8, 3),
        ]),
        '2' => Some(vec![
            bar(2, 2, 14, 3), bar(2, 12, 14, 13), bar(2, 21, 14, 22),
            bar(13, 3, 14, 12), bar(2, 13, 3, 21),
        ]),
        '3' => Some(vec![
            bar(2, 2, 14, 3), bar(2, 12, 14, 13), bar(2, 21, 14, 22),
            bar(13, 3, 14, 12), bar(13, 13, 14, 21),
        ]),
        '4' => Some(vec![
            bar(2, 2, 3, 13), bar(13, 2, 14, 21), bar(2, 12, 14, 13),
        ]),
        '5' => Some(vec![
            bar(2, 2, 14, 3), bar(2, 12, 14, 13), bar(2, 21, 14, 22),
            bar(2, 3, 3, 12), bar(13, 13, 14, 21),
        ]),
        '6' => Some(vec![
            bar(2, 2, 14, 3), bar(2, 12, 14, 13), bar(2, 21, 14, 22),
            bar(2, 3, 3, 12), bar(13, 13, 14, 21),
        ]),
        _ => None,
    };
    assert(strokes is Some ==> strokes.unwrap()@ =~= extra_large_strokes(ch).unwrap());
    strokes
}

/// The three sizes of text.
#[derive(Clone, Copy, Debug, PartialEq, Eq, Structural)]
pub enum Font {
    /// Cells of five by seven pixels, six pixels apart.
    Simple,
    /// Cells of eight by twelve pixels, ten pixels apart.
    Large,
    /// Cells of sixteen by twenty-four pixels, eighteen pixels apart.
    ExtraLarge,
}

/// A character as it is drawn: its strokes, and the rows by which they are
/// moved down from the line's top.
pub struct Glyph {
    pub strokes: Seq<Stroke>,
    pub drop: nat,
}

impl Font {
    /// Pixels from the left edge of one character to that of the next.
    pub open spec fn spec_advance(self) -> u32 {
        match self {
            Font::Simple => 6,
            Font::Large => 10,
            Font::ExtraLarge => 18,
        }
    }

    /// Pixels from the left edge of one character to that of the next.
    #[verifier::when_used_as_spec(spec_advance)]
    pub fn advance(self) -> (pixels: u32)
        ensures
            pixels == self.spec_advance(),
    {
        match self {
            Font::Simple => 6,
            Font::Large => 10,
            Font::ExtraLarge => 18,
        }
    }

    /// How this font draws a character. The extra large font draws a
    /// character it does not know in the large font, six rows down.
    pub open spec fn glyph(self, ch: char) -> Glyph {
        match self {
            Font::Simple => Glyph { strokes: simple_strokes(ch), drop: 0 },
            Font::Large => Glyph { strokes: large_strokes(ch), drop: 0 },
            Font::ExtraLarge => match extra_large_strokes(ch) {
                Some(strokes) => Glyph { strokes, drop: 0 },
                None => Glyph { strokes: large_strokes(ch), drop: 6 },
            },
        }
    }

    /// The strokes and the drop of `glyph`.
    pub fn glyph_strokes(self, ch: char) -> (glyph: (Vec<Stroke>, u32))
        ensures
            glyph.0@ == self.glyph(ch).strokes,
            glyph.1 == self.glyph(ch).drop,
            glyph.1 <= 6,
    {
        match self {
            Font::Simple => (simple_stroke_list(ch), 0),
            Font::Large => (large_stroke_list(ch), 0),
            Font::ExtraLarge => match extra_large_stroke_list(ch) {
                Some(strokes) => (strokes, 0),
                None => (large_stroke_list(ch), 6),
            },
        }
    }
}

} // verus!
