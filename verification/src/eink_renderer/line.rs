use super::text::EinkTideRenderer;
use crate::epd4in2b_v2::color::Color;
use crate::epd4in2b_v2::framebuffer::{DisplayBuffer, PixelWrite};
use vstd::arithmetic::div_mod::lemma_fundamental_div_mod_converse;
use vstd::prelude::*;

verus! {

/// The distance between two coordinates.
pub open spec fn spec_dist(a: u32, b: u32) -> u32 {
    if a <= b {
        (b - a) as u32
    } else {
        (a - b) as u32
    }
}

/// The distance between two coordinates.
#[verifier::when_used_as_spec(spec_dist)]
pub fn dist(a: u32, b: u32) -> (d: u32)
    ensures
        d == spec_dist(a, b),
{
    if a <= b {
        b - a
    } else {
        a - b
    }
}

/// The coordinate `by` steps from `from` in the direction of `to`.
pub open spec fn toward(from: nat, to: nat, by: nat) -> nat {
    if from < to {
        from + by
    } else {
        (from - by) as nat
    }
}

/// Steps that a line has taken across after `t` steps along, where it
/// takes `rise` steps across on `run` steps along: `t * rise / run`,
/// rounded to the nearest whole number, and down from a half.
pub open spec fn line_rise(t: nat, run: nat, rise: nat) -> nat {
    if run == 0 {
        0
    } else {
        ((2 * t * rise + run - 1) / (2 * run) as int) as nat
    }
}

/// The first `n` pixels of the line from `(a1, b1)` to `(a2, b2)`, which
/// runs at least as far along the first coordinate as along the second: one
/// pixel for each step along the first.
pub open spec fn line_writes(a1: u32, b1: u32, a2: u32, b2: u32, n: nat) -> Seq<PixelWrite>
    recommends
        dist(b1, b2) <= dist(a1, a2),
{
    Seq::new(
        n,
        |t: int|
            PixelWrite {
                x: toward(a1 as nat, a2 as nat, t as nat),
                y: toward(
                    b1 as nat,
                    b2 as nat,
                    line_rise(t as nat, dist(a1, a2) as nat, dist(b1, b2) as nat),
                ),
                color: Color::Black,
            },
    )
}

/// The pixels of the line between two pixels that both lie left of column
/// `w` and above row `h`; there are none where one of the two lies outside.
/// A line that is steeper than the diagonal is drawn with rows and columns
/// exchanged: as the line from `(y1, x1)` to `(y2, x2)`.
pub open spec fn draw_line_writes(x1: u32, y1: u32, x2: u32, y2: u32, w: nat, h: nat) -> Seq<
    PixelWrite,
> {
    if x1 >= w || x2 >= w || y1 >= h || y2 >= h {
        Seq::empty()
    } else if dist(y1, y2) > dist(x1, x2) {
        line_writes(y1, x1, y2, x2, (dist(y1, y2) + 1) as nat)
    } else {
        line_writes(x1, y1, x2, y2, (dist(x1, x2) + 1) as nat)
    }
}

/// Whether `k` is the number of steps across after `t` steps along: the
/// least number whose step and a half reaches the line.
spec fn on_line(t: int, k: int, run: int, rise: int) -> bool {
    &&& 0 <= k
    &&& (2 * k + 1) * run >= 2 * t * rise
    &&& (k == 0 || (2 * k - 1) * run < 2 * t * rise)
}

/// The number of steps across that is on the line is the rounded quotient.
proof fn lemma_on_line(t: int, k: int, run: int, rise: int)
    requires
        0 <= t,
        0 <= rise <= run,
        0 < run,
        on_line(t, k, run, rise),
    ensures
        k == line_rise(t as nat, run as nat, rise as nat),
{
    let x = 2 * t * rise + run - 1;
    let r = x - k * (2 * run);
    assert(0 <= 2 * t * rise) by (nonlinear_arith)
        requires
            0 <= t,
            0 <= rise,
    ;
    assert(k * (2 * run) == 2 * k * run) by (nonlinear_arith);
    assert((2 * k + 1) * run == 2 * k * run + run) by (nonlinear_arith);
    assert((2 * k - 1) * run == 2 * k * run - run) by (nonlinear_arith);
    if k == 0 {
        assert(2 * k * run == 0) by (nonlinear_arith)
            requires
                k == 0,
        ;
    }
    assert(0 <= r < 2 * run);
    lemma_fundamental_div_mod_converse(x, 2 * run, k, r);
}

/// After as many steps along as the line is long, it has taken all its
/// steps across, and before that it has taken no more.
proof fn lemma_on_line_end(t: int, k: int, run: int, rise: int)
    requires
        0 <= t <= run,
        0 <= rise <= run,
        on_line(t, k, run, rise),
    ensures
        k <= rise,
        t == run ==> k == rise,
{
    if k > 0 {
        assert(2 * t * rise <= 2 * run * rise) by (nonlinear_arith)
            requires
                0 <= t <= run,
                0 <= rise,
        ;
        assert((2 * k - 1) * run < 2 * rise * run) by (nonlinear_arith)
            requires
                (2 * k - 1) * run < 2 * t * rise,
                2 * t * rise <= 2 * run * rise,
        ;
        assert(k <= rise) by (nonlinear_arith)
            requires
                (2 * k - 1) * run < 2 * rise * run,
                0 <= run,
        ;
    }
    if t == run {
        assert(k >= rise) by (nonlinear_arith)
            requires
                (2 * k + 1) * run >= 2 * run * rise,
                0 <= k,
                0 <= rise <= run,
                t == run,
                0 <= run,
        ;
    }
}

/// One step of the line: it always goes along, and it goes across where
/// the error term says so; the new place is on the line again.
proof fn lemma_on_line_step(t: int, k: int, run: int, rise: int, err: int)
    requires
        0 <= t < run,
        0 <= rise <= run,
        on_line(t, k, run, rise),
        err == run - rise + k * run - t * rise,
    ensures
        -run <= 2 * err <= 3 * run,
        2 * err > -rise,
        2 * err < run ==> on_line(t + 1, k + 1, run, rise),
        !(2 * err < run) ==> on_line(t + 1, k, run, rise),
{
    assert((2 * k + 1) * run == 2 * (k * run) + run) by (nonlinear_arith);
    assert((2 * k - 1) * run == 2 * (k * run) - run) by (nonlinear_arith);
    assert((2 * (k + 1) + 1) * run == 2 * (k * run) + 3 * run) by (nonlinear_arith);
    assert((2 * (k + 1) - 1) * run == 2 * (k * run) + run) by (nonlinear_arith);
    assert(2 * t * rise == 2 * (t * rise)) by (nonlinear_arith);
    assert(2 * (t + 1) * rise == 2 * (t * rise) + 2 * rise) by (nonlinear_arith);
    if k == 0 {
        assert(k * run == 0) by (nonlinear_arith)
            requires
                k == 0,
        ;
    }
    if run == rise {
        assert(k >= t) by (nonlinear_arith)
            requires
                (2 * k + 1) * run >= 2 * t * rise,
                run == rise,
                run > 0,
        ;
        assert(k * run >= t * rise) by (nonlinear_arith)
            requires
                k >= t,
                run == rise,
                run > 0,
        ;
    }
}

impl EinkTideRenderer {
    /// Draws the line between two pixels of the panel in black. Nothing is
    /// drawn where one of the two lies outside the renderer's width and
    /// height. A line that is steeper than the diagonal is drawn with rows
    /// and columns exchanged.
    pub fn draw_line(&self, buffer: &mut DisplayBuffer, x1: u32, y1: u32, x2: u32, y2: u32)
        requires
            old(buffer)@.wf(),
        ensures
            final(buffer)@ == old(buffer)@.paint_all(
                draw_line_writes(x1, y1, x2, y2, self.width() as nat, self.height() as nat),
            ),
            final(buffer)@.wf(),
    {
        if x1 >= self.width() || x2 >= self.width() || y1 >= self.height() || y2
            >= self.height() {
            return ;
        }
        let steep = dist(y1, y2) > dist(x1, x2);
        let (a1, b1, a2, b2) = if steep {
            (y1, x1, y2, x2)
        } else {
            (x1, y1, x2, y2)
        };
        let ghost start = buffer@;
        let run: i64 = dist(a1, a2) as i64;
        let rise: i64 = dist(b1, b2) as i64;
        let along: i64 = if a1 < a2 {
            1
        } else {
            -1
        };
        let across: i64 = if b1 < b2 {
            1
        } else {
            -1
        };
        let mut err: i64 = run - rise;
        let mut x: i64 = a1 as i64;
        let mut y: i64 = b1 as i64;
        let ghost mut t: int = 0;
        let ghost mut k: int = 0;
        assert(line_writes(a1, b1, a2, b2, 0) =~= Seq::<PixelWrite>::empty());
        assert(0 * run == 0 && 0 * rise == 0) by (nonlinear_arith);
        loop
            invariant_except_break
                0 <= t <= run,
                on_line(t, k, run as int, rise as int),
                buffer@ == start.paint_all(line_writes(a1, b1, a2, b2, t as nat)),
            invariant
                run == dist(a1, a2),
                rise == dist(b1, b2),
                0 <= rise <= run,
                along == (if a1 < a2 {
                    1i64
                } else {
                    -1i64
                }),
                across == (if b1 < b2 {
                    1i64
                } else {
                    -1i64
                }),
                x == a1 + along * t,
                y == b1 + across * k,
                err == run - rise + k * run - t * rise,
                start.wf(),
                buffer@.wf(),
            ensures
                buffer@ == start.paint_all(line_writes(a1, b1, a2, b2, (run + 1) as nat)),
            decreases run - t,
        {
            proof {
                lemma_on_line_end(t, k, run as int, rise as int);
                if run > 0 {
                    lemma_on_line(t, k, run as int, rise as int);
                }
                assert(along * t == (if a1 < a2 {
                    t
                } else {
                    -t
                })) by (nonlinear_arith)
                    requires
                        along == (if a1 < a2 {
                            1i64
                        } else {
                            -1i64
                        }),
                ;
                assert(across * k == (if b1 < b2 {
                    k
                } else {
                    -k
                })) by (nonlinear_arith)
                    requires
                        across == (if b1 < b2 {
                            1i64
                        } else {
                            -1i64
                        }),
                ;
            }
            let ghost done = line_writes(a1, b1, a2, b2, t as nat);
            buffer.set_pixel(x as u32, y as u32, Color::Black);
            proof {
                let w = PixelWrite { x: x as nat, y: y as nat, color: Color::Black };
                start.lemma_paint_all_push(done, w);
                assert(done.push(w) =~= line_writes(a1, b1, a2, b2, (t + 1) as nat));
            }
            if x == a2 as i64 && y == b2 as i64 {
                break ;
            }
            proof {
                lemma_on_line_step(t, k, run as int, rise as int, err as int);
                assert((k + 1) * run == k * run + run) by (nonlinear_arith);
                assert((t + 1) * rise == t * rise + rise) by (nonlinear_arith);
                assert(along * (t + 1) == along * t + along) by (nonlinear_arith);
                assert(across * (k + 1) == across * k + across) by (nonlinear_arith);
            }
            let e2: i64 = err * 2;
            if e2 > -rise {
                err = err - rise;
                x = x + along;
            }
            if e2 < run {
                err = err + run;
                y = y + across;
                proof {
                    k = k + 1;
                }
            }
            proof {
                t = t + 1;
            }
        }
    }
}

} // verus!
