use super::glyphs::{Font, Stroke};
use super::raster::{clipped_rect_writes, fill_clipped, lemma_clipped_rect_writes};
use crate::epd4in2b_v2::color::Color;
use crate::epd4in2b_v2::framebuffer::{names_pixel, DisplayBuffer, FrameView, PixelWrite};
use vstd::prelude::*;
use vstd::std_specs::iter::IteratorSpec;
use vstd::string::{axiom_spec_iter, next_postcondition};

verus! {

/// Requests that draw one stroke in black. The stroke belongs to a cell
/// whose top left corner is `(left, top)`; of its pixels those left of
/// column `width` and above row `height` are drawn.
pub open spec fn stroke_writes(s: Stroke, left: nat, top: nat, width: nat, height: nat) -> Seq<
    PixelWrite,
> {
    clipped_rect_writes(
        (left + s.x0) as nat,
        (top + s.y0) as nat,
        (left + s.x1) as nat,
        (top + s.y1) as nat,
        width,
        height,
        Color::Black,
    )
}

/// Requests that draw strokes one after the other.
pub open spec fn strokes_writes(
    strokes: Seq<Stroke>,
    left: nat,
    top: nat,
    width: nat,
    height: nat,
) -> Seq<PixelWrite>
    decreases strokes.len(),
{
    if strokes.len() == 0 {
        Seq::empty()
    } else {
        strokes_writes(strokes.drop_last(), left, top, width, height) + stroke_writes(
            strokes.last(),
            left,
            top,
            width,
            height,
        )
    }
}

/// Requests that draw one character with its cell at `(left, top)`.
pub open spec fn glyph_writes(
    font: Font,
    ch: char,
    left: nat,
    top: nat,
    width: nat,
    height: nat,
) -> Seq<PixelWrite> {
    strokes_writes(font.glyph(ch).strokes, left, top + font.glyph(ch).drop, width, height)
}

/// Requests that draw a line of text from `(x, y)` to the right, each
/// character one advance of the font after the one before it.
pub open spec fn text_writes(
    font: Font,
    text: Seq<char>,
    x: nat,
    y: nat,
    width: nat,
    height: nat,
) -> Seq<PixelWrite>
    decreases text.len(),
{
    if text.len() == 0 {
        Seq::empty()
    } else {
        text_writes(font, text.drop_last(), x, y, width, height) + glyph_writes(
            font,
            text.last(),
            (x + (text.len() - 1) * font.advance()) as nat,
            y,
            width,
            height,
        )
    }
}

/// Whether a stroke of a cell at `(left, top)` covers pixel `(px, py)`,
/// left of column `width` and above row `height`.
pub open spec fn stroke_covers(
    s: Stroke,
    left: nat,
    top: nat,
    width: nat,
    height: nat,
    px: nat,
    py: nat,
) -> bool {
    &&& left + s.x0 <= px < left + s.x1
    &&& top + s.y0 <= py < top + s.y1
    &&& px < width
    &&& py < height
}

/// Whether one of the strokes covers pixel `(px, py)`.
pub open spec fn strokes_cover(
    strokes: Seq<Stroke>,
    left: nat,
    top: nat,
    width: nat,
    height: nat,
    px: nat,
    py: nat,
) -> bool {
    exists|k: int|
        0 <= k < strokes.len() && stroke_covers(
            #[trigger] strokes[k],
            left,
            top,
            width,
            height,
            px,
            py,
        )
}

/// Whether a character of the text covers pixel `(px, py)`.
pub open spec fn text_covers(
    font: Font,
    text: Seq<char>,
    x: nat,
    y: nat,
    width: nat,
    height: nat,
    px: nat,
    py: nat,
) -> bool {
    exists|i: int|
        0 <= i < text.len() && strokes_cover(
            font.glyph(#[trigger] text[i]).strokes,
            (x + i * font.advance()) as nat,
            y + font.glyph(text[i]).drop,
            width,
            height,
            px,
            py,
        )
}

/// A concatenation names the pixels that its parts name.
pub proof fn lemma_names_concat(a: Seq<PixelWrite>, b: Seq<PixelWrite>, px: nat, py: nat)
    ensures
        names_pixel(a + b, px, py) <==> names_pixel(a, px, py) || names_pixel(b, px, py),
{
    let all = a + b;
    if names_pixel(a, px, py) {
        let i = choose|i: int| 0 <= i < a.len() && (#[trigger] a[i]).x == px && a[i].y == py;
        assert(all[i] == a[i]);
    }
    if names_pixel(b, px, py) {
        let i = choose|i: int| 0 <= i < b.len() && (#[trigger] b[i]).x == px && b[i].y == py;
        assert(all[a.len() + i] == b[i]);
    }
    if names_pixel(all, px, py) {
        let i = choose|i: int|
            0 <= i < all.len() && (#[trigger] all[i]).x == px && all[i].y == py;
        if i < a.len() {
            assert(all[i] == a[i]);
        } else {
            assert(all[i] == b[i - a.len()]);
        }
    }
}

/// The requests of strokes are black, and they name the pixels that the
/// strokes cover.
pub proof fn lemma_strokes_writes(
    strokes: Seq<Stroke>,
    left: nat,
    top: nat,
    width: nat,
    height: nat,
)
    ensures
        forall|i: int|
            0 <= i < strokes_writes(strokes, left, top, width, height).len() ==> (
            #[trigger] strokes_writes(strokes, left, top, width, height)[i]).color == Color::Black,
        forall|px: nat, py: nat| #[trigger]
            names_pixel(strokes_writes(strokes, left, top, width, height), px, py)
                <==> strokes_cover(strokes, left, top, width, height, px, py),
    decreases strokes.len(),
{
    let all = strokes_writes(strokes, left, top, width, height);
    if strokes.len() > 0 {
        let rest = strokes.drop_last();
        let s = strokes.last();
        let before = strokes_writes(rest, left, top, width, height);
        let last = stroke_writes(s, left, top, width, height);
        lemma_strokes_writes(rest, left, top, width, height);
        lemma_clipped_rect_writes(
            (left + s.x0) as nat,
            (top + s.y0) as nat,
            (left + s.x1) as nat,
            (top + s.y1) as nat,
            width,
            height,
            Color::Black,
        );
        assert forall|i: int| 0 <= i < all.len() implies (#[trigger] all[i]).color
            == Color::Black by {
            if i < before.len() {
                assert(all[i] == before[i]);
            } else {
                assert(all[i] == last[i - before.len()]);
            }
        }
        assert forall|px: nat, py: nat| #[trigger]
            names_pixel(all, px, py) <==> strokes_cover(
                strokes,
                left,
                top,
                width,
                height,
                px,
                py,
            ) by {
            lemma_names_concat(before, last, px, py);
            assert(names_pixel(last, px, py) <==> stroke_covers(
                s,
                left,
                top,
                width,
                height,
                px,
                py,
            ));
            assert(names_pixel(before, px, py) <==> strokes_cover(
                rest,
                left,
                top,
                width,
                height,
                px,
                py,
            ));
            if strokes_cover(rest, left, top, width, height, px, py) {
                let k = choose|k: int|
                    0 <= k < rest.len() && stroke_covers(
                        #[trigger] rest[k],
                        left,
                        top,
                        width,
                        height,
                        px,
                        py,
                    );
                assert(strokes[k] == rest[k]);
            }
            if stroke_covers(s, left, top, width, height, px, py) {
                assert(strokes[strokes.len() - 1] == s);
            }
            if strokes_cover(strokes, left, top, width, height, px, py) {
                let k = choose|k: int|
                    0 <= k < strokes.len() && stroke_covers(
                        #[trigger] strokes[k],
                        left,
                        top,
                        width,
                        height,
                        px,
                        py,
                    );
                if k < rest.len() {
                    assert(rest[k] == strokes[k]);
                }
            }
        }
    } else {
        assert forall|px: nat, py: nat| #[trigger]
            names_pixel(all, px, py) <==> strokes_cover(
                strokes,
                left,
                top,
                width,
                height,
                px,
                py,
            ) by {}
    }
}

/// The requests of a text are black, and they name the pixels that its
/// characters cover.
pub proof fn lemma_text_writes(
    font: Font,
    text: Seq<char>,
    x: nat,
    y: nat,
    width: nat,
    height: nat,
)
    ensures
        forall|i: int|
            0 <= i < text_writes(font, text, x, y, width, height).len() ==> (
            #[trigger] text_writes(font, text, x, y, width, height)[i]).color == Color::Black,
        forall|px: nat, py: nat| #[trigger]
            names_pixel(text_writes(font, text, x, y, width, height), px, py) <==> text_covers(
                font,
                text,
                x,
                y,
                width,
                height,
                px,
                py,
            ),
    decreases text.len(),
{
    let all = text_writes(font, text, x, y, width, height);
    if text.len() > 0 {
        let rest = text.drop_last();
        let ch = text.last();
        let n = (text.len() - 1) as int;
        let left = (x + n * font.advance()) as nat;
        assert(left == x + (text.len() - 1) * font.advance());
        let top = y + font.glyph(ch).drop;
        let before = text_writes(font, rest, x, y, width, height);
        let last = glyph_writes(font, ch, left, y, width, height);
        lemma_text_writes(font, rest, x, y, width, height);
        lemma_strokes_writes(font.glyph(ch).strokes, left, top, width, height);
        assert forall|i: int| 0 <= i < all.len() implies (#[trigger] all[i]).color
            == Color::Black by {
            if i < before.len() {
                assert(all[i] == before[i]);
            } else {
                assert(all[i] == last[i - before.len()]);
            }
        }
        assert forall|px: nat, py: nat| #[trigger]
            names_pixel(all, px, py) <==> text_covers(font, text, x, y, width, height, px, py) by {
            lemma_names_concat(before, last, px, py);
            assert(names_pixel(last, px, py) <==> strokes_cover(
                font.glyph(ch).strokes,
                left,
                top,
                width,
                height,
                px,
                py,
            ));
            assert(names_pixel(before, px, py) <==> text_covers(
                font,
                rest,
                x,
                y,
                width,
                height,
                px,
                py,
            ));
            if text_covers(font, rest, x, y, width, height, px, py) {
                let i = choose|i: int|
                    0 <= i < rest.len() && strokes_cover(
                        font.glyph(#[trigger] rest[i]).strokes,
                        (x + i * font.advance()) as nat,
                        y + font.glyph(rest[i]).drop,
                        width,
                        height,
                        px,
                        py,
                    );
                assert(text[i] == rest[i]);
            }
            if strokes_cover(font.glyph(ch).strokes, left, top, width, height, px, py) {
                assert(text[n] == ch);
            }
            if text_covers(font, text, x, y, width, height, px, py) {
                let i = choose|i: int|
                    0 <= i < text.len() && strokes_cover(
                        font.glyph(#[trigger] text[i]).strokes,
                        (x + i * font.advance()) as nat,
                        y + font.glyph(text[i]).drop,
                        width,
                        height,
                        px,
                        py,
                    );
                if i < rest.len() {
                    assert(rest[i] == text[i]);
                }
            }
        }
    } else {
        assert forall|px: nat, py: nat| #[trigger]
            names_pixel(all, px, py) <==> text_covers(font, text, x, y, width, height, px, py) by {}
    }
}

/// Drawing a text turns the pixels black that its characters cover, and
/// leaves every other pixel of the frame as it was.
pub proof fn lemma_text_drawn(
    frame: FrameView,
    font: Font,
    text: Seq<char>,
    x: nat,
    y: nat,
    width: nat,
    height: nat,
    px: nat,
    py: nat,
)
    requires
        frame.wf(),
        frame.contains(px, py),
    ensures
        frame.paint_all(text_writes(font, text, x, y, width, height)).color_at(px, py) == (
        if text_covers(font, text, x, y, width, height, px, py) {
            Color::Black
        } else {
            frame.color_at(px, py)
        }),
{
    let writes = text_writes(font, text, x, y, width, height);
    lemma_text_writes(font, text, x, y, width, height);
    assert(names_pixel(writes, px, py) <==> text_covers(font, text, x, y, width, height, px, py));
    frame.lemma_uniform_writes(writes, Color::Black, px, py);
}

/// Strokes of cells that begin at or right of column `width` draw nothing,
/// wherever the cells begin.
proof fn lemma_strokes_beyond(
    strokes: Seq<Stroke>,
    left: nat,
    other: nat,
    top: nat,
    width: nat,
    height: nat,
)
    requires
        left >= width,
        other >= width,
    ensures
        strokes_writes(strokes, left, top, width, height) == strokes_writes(
            strokes,
            other,
            top,
            width,
            height,
        ),
    decreases strokes.len(),
{
    if strokes.len() > 0 {
        lemma_strokes_beyond(strokes.drop_last(), left, other, top, width, height);
    }
}

/// Renderer of the tide chart: text and chart parts drawn in black on a
/// frame buffer, cut off at the renderer's own width and height.
pub struct EinkTideRenderer {
    width: u32,
    height: u32,
    margin: u32,
}

impl EinkTideRenderer {
    /// Columns the renderer draws to.
    pub closed spec fn spec_width(&self) -> u32 {
        self.width
    }

    /// Rows the renderer draws to.
    pub closed spec fn spec_height(&self) -> u32 {
        self.height
    }

    /// Pixels left free round the chart.
    pub closed spec fn spec_margin(&self) -> u32 {
        self.margin
    }

    /// A renderer for the 400 by 300 panel, with a margin of 20 pixels.
    pub fn new() -> (renderer: Self)
        ensures
            renderer.width() == 400,
            renderer.height() == 300,
            renderer.margin() == 20,
    {
        EinkTideRenderer { width: 400, height: 300, margin: 20 }
    }

    /// Columns the renderer draws to.
    #[verifier::when_used_as_spec(spec_width)]
    pub fn width(&self) -> (width: u32)
        ensures
            width == self.spec_width(),
    {
        self.width
    }

    /// Rows the renderer draws to.
    #[verifier::when_used_as_spec(spec_height)]
    pub fn height(&self) -> (height: u32)
        ensures
            height == self.spec_height(),
    {
        self.height
    }

    /// Pixels left free round the chart.
    #[verifier::when_used_as_spec(spec_margin)]
    pub fn margin(&self) -> (margin: u32)
        ensures
            margin == self.spec_margin(),
    {
        self.margin
    }

    /// Fills a rectangle given by its corners, cut off at the renderer's
    /// width and height.
    pub fn fill(
        &self,
        buffer: &mut DisplayBuffer,
        x0: u64,
        y0: u64,
        x1: u64,
        y1: u64,
        color: Color,
    )
        requires
            old(buffer)@.wf(),
        ensures
            final(buffer)@ == old(buffer)@.paint_all(
                clipped_rect_writes(
                    x0 as nat,
                    y0 as nat,
                    x1 as nat,
                    y1 as nat,
                    self.width() as nat,
                    self.height() as nat,
                    color,
                ),
            ),
            final(buffer)@.wf(),
    {
        fill_clipped(buffer, x0, y0, x1, y1, self.width, self.height, color);
    }

    /// Draws the strokes of one cell.
    fn draw_strokes(&self, buffer: &mut DisplayBuffer, strokes: &Vec<Stroke>, left: u64, top: u64)
        requires
            old(buffer)@.wf(),
            left <= 0x200_0000_0000,
            top <= 0x200_0000_0000,
        ensures
            final(buffer)@ == old(buffer)@.paint_all(
                strokes_writes(
                    strokes@,
                    left as nat,
                    top as nat,
                    self.width() as nat,
                    self.height() as nat,
                ),
            ),
            final(buffer)@.wf(),
    {
        let ghost start = buffer@;
        let ghost w = self.width() as nat;
        let ghost h = self.height() as nat;
        let mut k: usize = 0;
        assert(strokes@.take(0) =~= Seq::<Stroke>::empty());
        while k < strokes.len()
            invariant
                k <= strokes.len(),
                left <= 0x200_0000_0000,
                top <= 0x200_0000_0000,
                w == self.width(),
                h == self.height(),
                start.wf(),
                buffer@.wf(),
                buffer@ == start.paint_all(
                    strokes_writes(strokes@.take(k as int), left as nat, top as nat, w, h),
                ),
            decreases strokes.len() - k,
        {
            let s = strokes[k];
            let ghost done = strokes_writes(strokes@.take(k as int), left as nat, top as nat, w, h);
            self.fill(
                buffer,
                left + s.x0 as u64,
                top + s.y0 as u64,
                left + s.x1 as u64,
                top + s.y1 as u64,
                Color::Black,
            );
            proof {
                let next = strokes@.take(k + 1);
                assert(next.drop_last() =~= strokes@.take(k as int));
                assert(next.last() == s);
                start.lemma_paint_all_concat(done, stroke_writes(s, left as nat, top as nat, w, h));
            }
            k = k + 1;
        }
        assert(strokes@.take(k as int) =~= strokes@);
    }

    /// Draws a line of text in one of the three fonts.
    pub fn draw_text(&self, buffer: &mut DisplayBuffer, font: Font, x: u32, y: u32, text: &str)
        requires
            old(buffer)@.wf(),
        ensures
            final(buffer)@ == old(buffer)@.paint_all(
                text_writes(
                    font,
                    text@,
                    x as nat,
                    y as nat,
                    self.width() as nat,
                    self.height() as nat,
                ),
            ),
            final(buffer)@.wf(),
    {
        self.draw_text_at(buffer, font, x as u64, y as u64, text)
    }

    /// Draws a line of text from a place that may lie beyond the range of
    /// pixel coordinates.
    pub(crate) fn draw_text_at(
        &self,
        buffer: &mut DisplayBuffer,
        font: Font,
        x: u64,
        y: u64,
        text: &str,
    )
        requires
            old(buffer)@.wf(),
            x <= 0x100_0000_0000,
            y <= 0x100_0000_0000,
        ensures
            final(buffer)@ == old(buffer)@.paint_all(
                text_writes(
                    font,
                    text@,
                    x as nat,
                    y as nat,
                    self.width() as nat,
                    self.height() as nat,
                ),
            ),
            final(buffer)@.wf(),
    {
        broadcast use axiom_spec_iter, next_postcondition;

        let ghost start = buffer@;
        let ghost w = self.width() as nat;
        let ghost h = self.height() as nat;
        let advance: u64 = font.advance() as u64;
        let limit: u64 = self.width as u64;
        let mut left: u64 = x;
        let mut chars = text.chars();
        let ghost mut i: nat = 0;
        assert(text@.take(0) =~= Seq::<char>::empty());
        assert(text@.skip(0) =~= text@);
        loop
            invariant
                i <= text@.len(),
                chars.remaining() == text@.skip(i as int),
                chars.obeys_prophetic_iter_laws(),
                advance == font.advance(),
                limit == self.width(),
                w == self.width(),
                h == self.height(),
                x <= 0x100_0000_0000,
                y <= 0x100_0000_0000,
                left <= 0x100_0000_0020,
                left == x + i * advance || (left >= limit && x + i * advance >= limit),
                start.wf(),
                buffer@.wf(),
                buffer@ == start.paint_all(
                    text_writes(font, text@.take(i as int), x as nat, y as nat, w, h),
                ),
            ensures
                buffer@.wf(),
                buffer@ == start.paint_all(text_writes(font, text@, x as nat, y as nat, w, h)),
            decreases text@.len() - i,
        {
            match chars.next() {
                None => {
                    assert(text@.take(i as int) =~= text@);
                    break ;
                },
                Some(ch) => {
                    assert(ch == text@[i as int]);
                    let ghost done = text_writes(
                        font,
                        text@.take(i as int),
                        x as nat,
                        y as nat,
                        w,
                        h,
                    );
                    let (strokes, drop) = font.glyph_strokes(ch);
                    self.draw_strokes(buffer, &strokes, left, y + drop as u64);
                    proof {
                        let place = (x + i * advance) as nat;
                        if left != place {
                            lemma_strokes_beyond(
                                strokes@,
                                left as nat,
                                place,
                                (y + drop) as nat,
                                w,
                                h,
                            );
                        }
                        let next = text@.take(i + 1 as int);
                        assert(next.drop_last() =~= text@.take(i as int));
                        assert(next.last() == ch);
                        assert(place == x + (next.len() - 1) * font.advance());
                        start.lemma_paint_all_concat(
                            done,
                            glyph_writes(font, ch, place, y as nat, w, h),
                        );
                        assert(text@.skip(i as int).drop_first() =~= text@.skip(i + 1 as int));
                        assert(x + (i + 1) * advance == x + i * advance + advance)
                            by (nonlinear_arith);
                    }
                    // A cell that begins at or right of the renderer's width is
                    // cut off whole, and so are the cells after it: from there
                    // on `left` stays as it is, and cannot overflow.
                    if left < limit {
                        left = left + advance;
                    }
                    proof {
                        i = i + 1;
                    }
                },
            }
        }
    }

    /// Draws a line of text in the small font.
    pub fn draw_simple_text(&self, buffer: &mut DisplayBuffer, x: u32, y: u32, text: &str)
        requires
            old(buffer)@.wf(),
        ensures
            final(buffer)@ == old(buffer)@.paint_all(
                text_writes(
                    Font::Simple,
                    text@,
                    x as nat,
                    y as nat,
                    self.width() as nat,
                    self.height() as nat,
                ),
            ),
            final(buffer)@.wf(),
    {
        self.draw_text(buffer, Font::Simple, x, y, text)
    }

    /// Draws a line of text in the large font.
    pub fn draw_large_text(&self, buffer: &mut DisplayBuffer, x: u32, y: u32, text: &str)
        requires
            old(buffer)@.wf(),
        ensures
            final(buffer)@ == old(buffer)@.paint_all(
                text_writes(
                    Font::Large,
                    text@,
                    x as nat,
                    y as nat,
                    self.width() as nat,
                    self.height() as nat,
                ),
            ),
            final(buffer)@.wf(),
    {
        self.draw_text(buffer, Font::Large, x, y, text)
    }

    /// Draws a line of text in the extra large font.
    pub fn draw_extra_large_text(&self, buffer: &mut DisplayBuffer, x: u32, y: u32, text: &str)
        requires
            old(buffer)@.wf(),
        ensures
            final(buffer)@ == old(buffer)@.paint_all(
                text_writes(
                    Font::ExtraLarge,
                    text@,
                    x as nat,
                    y as nat,
                    self.width() as nat,
                    self.height() as nat,
                ),
            ),
            final(buffer)@.wf(),
    {
        self.draw_text(buffer, Font::ExtraLarge, x, y, text)
    }
}

} // verus!
