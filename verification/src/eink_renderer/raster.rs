use crate::epd4in2b_v2::color::Color;
use crate::epd4in2b_v2::framebuffer::{names_pixel, DisplayBuffer, FrameView, PixelWrite};
use vstd::prelude::*;

verus! {

/// The smaller of two numbers.
pub open spec fn min_nat(a: nat, b: nat) -> nat {
    if a <= b {
        a
    } else {
        b
    }
}

/// Requests that set the pixels of row `y` from column `x0` up to, not
/// including, column `x1` to `color`, left to right.
pub open spec fn row_writes(x0: nat, x1: nat, y: nat, color: Color) -> Seq<PixelWrite> {
    Seq::new(
        if x1 > x0 {
            (x1 - x0) as nat
        } else {
            0
        },
        |i: int| PixelWrite { x: (x0 + i) as nat, y, color },
    )
}

/// Requests that set the pixels of the rectangle from `(x0, y0)` up to, not
/// including, column `x1` and row `y1` to `color`, row by row.
pub open spec fn rect_writes(x0: nat, y0: nat, x1: nat, y1: nat, color: Color) -> Seq<PixelWrite>
    decreases y1,
{
    if y1 <= y0 {
        Seq::empty()
    } else {
        rect_writes(x0, y0, x1, (y1 - 1) as nat, color) + row_writes(
            x0,
            x1,
            (y1 - 1) as nat,
            color,
        )
    }
}

/// The requests of a rectangle all have its colour, and they name the
/// pixels of the rectangle and no others.
pub proof fn lemma_rect_writes(x0: nat, y0: nat, x1: nat, y1: nat, color: Color)
    ensures
        forall|i: int|
            0 <= i < rect_writes(x0, y0, x1, y1, color).len() ==> (#[trigger] rect_writes(
                x0,
                y0,
                x1,
                y1,
                color,
            )[i]).color == color,
        forall|x: nat, y: nat| #[trigger]
            names_pixel(rect_writes(x0, y0, x1, y1, color), x, y) <==> x0 <= x < x1 && y0 <= y
                < y1,
    decreases y1,
{
    let all = rect_writes(x0, y0, x1, y1, color);
    if y1 > y0 {
        let above = rect_writes(x0, y0, x1, (y1 - 1) as nat, color);
        let row = row_writes(x0, x1, (y1 - 1) as nat, color);
        lemma_rect_writes(x0, y0, x1, (y1 - 1) as nat, color);
        assert forall|x: nat, y: nat| #[trigger]
            names_pixel(all, x, y) <==> x0 <= x < x1 && y0 <= y < y1 by {
            if x0 <= x < x1 && y0 <= y < y1 {
                if y == y1 - 1 {
                    let i = above.len() + (x - x0);
                    assert(all[i] == row[x - x0]);
                } else {
                    assert(names_pixel(above, x, y));
                    let i = choose|i: int|
                        0 <= i < above.len() && (#[trigger] above[i]).x == x && above[i].y == y;
                    assert(all[i] == above[i]);
                }
            }
            if names_pixel(all, x, y) {
                let i = choose|i: int|
                    0 <= i < all.len() && (#[trigger] all[i]).x == x && all[i].y == y;
                if i < above.len() {
                    assert(above[i] == all[i]);
                    assert(names_pixel(above, x, y));
                } else {
                    assert(all[i] == row[i - above.len()]);
                }
            }
        }
        assert forall|i: int| 0 <= i < all.len() implies (#[trigger] all[i]).color == color by {
            if i < above.len() {
                assert(above[i] == all[i]);
            } else {
                assert(all[i] == row[i - above.len()]);
            }
        }
    }
}

/// A rectangle without columns or without rows has no requests.
pub proof fn lemma_rect_empty(x0: nat, y0: nat, x1: nat, y1: nat, color: Color)
    requires
        x1 <= x0 || y1 <= y0,
    ensures
        rect_writes(x0, y0, x1, y1, color) == Seq::<PixelWrite>::empty(),
    decreases y1,
{
    if y1 > y0 {
        lemma_rect_empty(x0, y0, x1, (y1 - 1) as nat, color);
        assert(rect_writes(x0, y0, x1, y1, color) =~= Seq::<PixelWrite>::empty());
    }
}

/// Sets the pixels of a rectangle to one colour. Pixels outside the buffer
/// are passed over.
pub fn fill_rect(buffer: &mut DisplayBuffer, x0: u32, y0: u32, x1: u32, y1: u32, color: Color)
    requires
        old(buffer)@.wf(),
    ensures
        final(buffer)@ == old(buffer)@.paint_all(
            rect_writes(x0 as nat, y0 as nat, x1 as nat, y1 as nat, color),
        ),
        final(buffer)@.wf(),
{
    let ghost start = buffer@;
    if x0 >= x1 || y0 >= y1 {
        proof {
            lemma_rect_empty(x0 as nat, y0 as nat, x1 as nat, y1 as nat, color);
        }
        return ;
    }
    let mut y: u32 = y0;
    while y < y1
        invariant
            x0 < x1,
            y0 <= y <= y1,
            start.wf(),
            buffer@ == start.paint_all(rect_writes(x0 as nat, y0 as nat, x1 as nat, y as nat, color)),
            buffer@.wf(),
        decreases y1 - y,
    {
        let ghost above = rect_writes(x0 as nat, y0 as nat, x1 as nat, y as nat, color);
        let mut x: u32 = x0;
        assert(above + row_writes(x0 as nat, x0 as nat, y as nat, color) =~= above);
        while x < x1
            invariant
                x0 <= x <= x1,
                start.wf(),
                buffer@ == start.paint_all(above + row_writes(x0 as nat, x as nat, y as nat, color)),
                buffer@.wf(),
            decreases x1 - x,
        {
            let ghost done = above + row_writes(x0 as nat, x as nat, y as nat, color);
            buffer.set_pixel(x, y, color);
            proof {
                let w = PixelWrite { x: x as nat, y: y as nat, color };
                start.lemma_paint_all_push(done, w);
                assert(done.push(w) =~= above + row_writes(
                    x0 as nat,
                    (x + 1) as nat,
                    y as nat,
                    color,
                ));
            }
            x = x + 1;
        }
        y = y + 1;
    }
}

/// The requests of a rectangle of which only the pixels left of column
/// `limit_x` and above row `limit_y` are drawn.
pub open spec fn clipped_rect_writes(
    x0: nat,
    y0: nat,
    x1: nat,
    y1: nat,
    limit_x: nat,
    limit_y: nat,
    color: Color,
) -> Seq<PixelWrite> {
    rect_writes(
        min_nat(x0, limit_x),
        min_nat(y0, limit_y),
        min_nat(x1, limit_x),
        min_nat(y1, limit_y),
        color,
    )
}

/// Sets the pixels of a rectangle to one colour, as far as they lie left of
/// column `limit_x`, above row `limit_y` and inside the buffer.
pub fn fill_clipped(
    buffer: &mut DisplayBuffer,
    x0: u64,
    y0: u64,
    x1: u64,
    y1: u64,
    limit_x: u32,
    limit_y: u32,
    color: Color,
)
    requires
        old(buffer)@.wf(),
    ensures
        final(buffer)@ == old(buffer)@.paint_all(
            clipped_rect_writes(
                x0 as nat,
                y0 as nat,
                x1 as nat,
                y1 as nat,
                limit_x as nat,
                limit_y as nat,
                color,
            ),
        ),
        final(buffer)@.wf(),
{
    let cx0: u32 = if x0 < limit_x as u64 { x0 as u32 } else { limit_x };
    let cy0: u32 = if y0 < limit_y as u64 { y0 as u32 } else { limit_y };
    let cx1: u32 = if x1 < limit_x as u64 { x1 as u32 } else { limit_x };
    let cy1: u32 = if y1 < limit_y as u64 { y1 as u32 } else { limit_y };
    fill_rect(buffer, cx0, cy0, cx1, cy1, color);
}

/// The requests of a clipped rectangle all have its colour, and they name
/// the pixels of the rectangle that lie inside the limits.
pub proof fn lemma_clipped_rect_writes(
    x0: nat,
    y0: nat,
    x1: nat,
    y1: nat,
    limit_x: nat,
    limit_y: nat,
    color: Color,
)
    ensures
        forall|i: int|
            0 <= i < clipped_rect_writes(x0, y0, x1, y1, limit_x, limit_y, color).len() ==> (
            #[trigger] clipped_rect_writes(x0, y0, x1, y1, limit_x, limit_y, color)[i]).color
                == color,
        forall|x: nat, y: nat| #[trigger]
            names_pixel(clipped_rect_writes(x0, y0, x1, y1, limit_x, limit_y, color), x, y) <==> x0
                <= x < x1 && y0 <= y < y1 && x < limit_x && y < limit_y,
{
    lemma_rect_writes(
        min_nat(x0, limit_x),
        min_nat(y0, limit_y),
        min_nat(x1, limit_x),
        min_nat(y1, limit_y),
        color,
    );
}

/// Filling a rectangle gives its colour to the pixels of the frame that
/// lie in the rectangle and inside the limits, and leaves every other
/// pixel of the frame as it was.
pub proof fn lemma_fill_drawn(
    frame: FrameView,
    x0: nat,
    y0: nat,
    x1: nat,
    y1: nat,
    limit_x: nat,
    limit_y: nat,
    color: Color,
    x: nat,
    y: nat,
)
    requires
        frame.wf(),
        frame.contains(x, y),
    ensures
        frame.paint_all(clipped_rect_writes(x0, y0, x1, y1, limit_x, limit_y, color)).color_at(x, y)
            == (if x0 <= x < x1 && y0 <= y < y1 && x < limit_x && y < limit_y {
            color
        } else {
            frame.color_at(x, y)
        }),
{
    let writes = clipped_rect_writes(x0, y0, x1, y1, limit_x, limit_y, color);
    lemma_clipped_rect_writes(x0, y0, x1, y1, limit_x, limit_y, color);
    assert(names_pixel(writes, x, y) <==> x0 <= x < x1 && y0 <= y < y1 && x < limit_x && y
        < limit_y);
    frame.lemma_uniform_writes(writes, color, x, y);
}

} // verus!
