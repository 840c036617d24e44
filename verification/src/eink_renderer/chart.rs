use super::glyphs::Font;
use super::raster::{clipped_rect_writes, fill_clipped};
use super::text::{text_writes, EinkTideRenderer};
use crate::epd4in2b_v2::color::Color;
use crate::epd4in2b_v2::framebuffer::{DisplayBuffer, FrameView, PixelWrite};
use vstd::prelude::*;

verus! {

/// Pixels between the chart's edge and the plot inside it.
pub const PLOT_MARGIN: u32 = 15;

/// Labelled marks on the height axis.
pub const TICKS: usize = 5;

/// A rectangle of the panel.
#[derive(Clone, Copy, Debug, PartialEq, Eq, Structural)]
pub struct Area {
    pub x: u32,
    pub y: u32,
    pub width: u32,
    pub height: u32,
}

impl Area {
    /// The area that lies `by` pixels inside this one on every side, where
    /// this one is large enough to hold it.
    pub open spec fn spec_inset(self, by: u32) -> Option<Area> {
        if 2 * by <= self.width && 2 * by <= self.height && self.x + by <= u32::MAX && self.y + by
            <= u32::MAX {
            Some(
                Area {
                    x: (self.x + by) as u32,
                    y: (self.y + by) as u32,
                    width: (self.width - 2 * by) as u32,
                    height: (self.height - 2 * by) as u32,
                },
            )
        } else {
            None
        }
    }

    /// The area that lies `by` pixels inside this one on every side, where
    /// this one is large enough to hold it.
    #[verifier::when_used_as_spec(spec_inset)]
    pub fn inset(self, by: u32) -> (inner: Option<Area>)
        ensures
            inner == self.spec_inset(by),
    {
        if by > u32::MAX / 2 {
            return None;
        }
        let twice: u32 = 2 * by;
        if twice > self.width || twice > self.height {
            return None;
        }
        if self.x > u32::MAX - by || self.y > u32::MAX - by {
            return None;
        }
        Some(
            Area {
                x: self.x + by,
                y: self.y + by,
                width: self.width - twice,
                height: self.height - twice,
            },
        )
    }

    /// The plot of a chart: the area inside its axes.
    pub open spec fn spec_plot(self) -> Option<Area> {
        self.spec_inset(PLOT_MARGIN)
    }

    /// The plot of a chart: the area inside its axes.
    #[verifier::when_used_as_spec(spec_plot)]
    pub fn plot(self) -> (plot: Option<Area>)
        ensures
            plot == self.spec_plot(),
    {
        self.inset(PLOT_MARGIN)
    }
}

/// Whether a sample that lies `mins_rel` minutes from the present counts as
/// the present: within five minutes either way.
pub open spec fn spec_is_now(mins_rel: i16) -> bool {
    -5 <= mins_rel <= 5
}

/// Whether a sample that lies `mins_rel` minutes from the present counts as
/// the present: within five minutes either way.
#[verifier::when_used_as_spec(spec_is_now)]
pub fn is_now(mins_rel: i16) -> (now: bool)
    ensures
        now == spec_is_now(mins_rel),
{
    -5 <= mins_rel && mins_rel <= 5
}

/// `a - b`, and 0 where that is negative.
pub open spec fn minus_or_zero(a: nat, b: nat) -> nat {
    if a >= b {
        (a - b) as nat
    } else {
        0
    }
}

/// The texts of a list of strings.
pub open spec fn texts_of(labels: Seq<String>) -> Seq<Seq<char>> {
    Seq::new(labels.len(), |i: int| labels[i]@)
}

/// One mark on the height axis, the `i`-th from the top: a bar left of the
/// axis, and left of the bar its label in the small font.
pub open spec fn tick_writes(
    plot_x: nat,
    plot_y: nat,
    plot_height: nat,
    i: nat,
    label: Seq<char>,
    w: nat,
    h: nat,
) -> Seq<PixelWrite>
    recommends
        plot_x >= 12,
{
    let tick_y = plot_y + i * plot_height / 4;
    clipped_rect_writes((plot_x - 5) as nat, tick_y, plot_x, tick_y + 2, w, h, Color::Black)
        + text_writes(Font::Simple, label, (plot_x - 12) as nat, minus_or_zero(tick_y, 3), w, h)
}

/// The marks on the height axis, one for each label, from the top down.
pub open spec fn ticks_writes(
    plot_x: nat,
    plot_y: nat,
    plot_height: nat,
    labels: Seq<Seq<char>>,
    w: nat,
    h: nat,
) -> Seq<PixelWrite>
    decreases labels.len(),
{
    if labels.len() == 0 {
        Seq::empty()
    } else {
        ticks_writes(plot_x, plot_y, plot_height, labels.drop_last(), w, h) + tick_writes(
            plot_x,
            plot_y,
            plot_height,
            (labels.len() - 1) as nat,
            labels.last(),
            w,
            h,
        )
    }
}

/// The labels under the time axis, in the large font: twelve hours ago at
/// the left end, the present in the middle, twelve hours ahead at the right
/// end. They are left out where twelve rows for them do not fit above row
/// `h`.
pub open spec fn time_labels_writes(
    plot_x: nat,
    plot_width: nat,
    label_y: nat,
    w: nat,
    h: nat,
) -> Seq<PixelWrite>
    recommends
        plot_x + plot_width / 2 >= 15,
        plot_x + plot_width >= 40,
{
    if label_y + 12 < h {
        text_writes(Font::Large, "-12h"@, plot_x, label_y, w, h) + text_writes(
            Font::Large,
            "Now"@,
            (plot_x + plot_width / 2 - 15) as nat,
            label_y,
            w,
            h,
        ) + text_writes(Font::Large, "+12h"@, (plot_x + plot_width - 40) as nat, label_y, w, h)
    } else {
        Seq::empty()
    }
}

/// The words beside the height axis, in the small font: high near the top
/// of the chart, middle at half its height, low near its bottom.
pub open spec fn side_labels_writes(
    chart_y: nat,
    axis_x: nat,
    chart_height: nat,
    w: nat,
    h: nat,
) -> Seq<PixelWrite>
    recommends
        chart_y + chart_height / 2 >= 6,
        chart_y + chart_height >= 50,
{
    let label_x = if axis_x >= 40 {
        (axis_x - 40) as nat
    } else {
        5
    };
    text_writes(Font::Simple, "Hi"@, label_x, chart_y + 30, w, h) + text_writes(
        Font::Simple,
        "Mid"@,
        label_x,
        (chart_y + chart_height / 2 - 6) as nat,
        w,
        h,
    ) + text_writes(Font::Simple, "Lo"@, label_x, (chart_y + chart_height - 50) as nat, w, h)
}

/// Charts on which axes and labels find their places.
pub open spec fn axes_fit(chart: Area) -> bool {
    &&& chart.width >= 2 * PLOT_MARGIN
    &&& chart.height >= 2 * PLOT_MARGIN
    &&& chart.x + chart.width >= 55
    &&& chart.y + chart.height >= 50
}

/// The axes of a chart. The plot lies `PLOT_MARGIN` pixels inside the
/// chart. The time axis runs under the plot and the height axis at its
/// left, each two pixels thick. The height axis has its marks with their
/// labels; under the time axis stand the time labels; beside the height
/// axis stand its words.
pub open spec fn axes_writes(chart: Area, labels: Seq<Seq<char>>, w: nat, h: nat) -> Seq<
    PixelWrite,
>
    recommends
        axes_fit(chart),
{
    let plot_x = (chart.x + PLOT_MARGIN) as nat;
    let plot_y = (chart.y + PLOT_MARGIN) as nat;
    let plot_width = (chart.width - 2 * PLOT_MARGIN) as nat;
    let plot_height = (chart.height - 2 * PLOT_MARGIN) as nat;
    let axis_y = plot_y + plot_height;
    clipped_rect_writes(plot_x, axis_y, plot_x + plot_width, axis_y + 2, w, h, Color::Black)
        + clipped_rect_writes(plot_x, plot_y, plot_x + 2, plot_y + plot_height, w, h, Color::Black)
        + ticks_writes(plot_x, plot_y, plot_height, labels, w, h) + time_labels_writes(
        plot_x,
        plot_width,
        axis_y + 10,
        w,
        h,
    ) + side_labels_writes(chart.y as nat, plot_x, chart.height as nat, w, h)
}

/// A dotted vertical line two pixels thick, `rows` rows down from `top`:
/// four rows drawn, four left out, and so on.
pub open spec fn dotted_writes(x: nat, top: nat, rows: nat, w: nat, h: nat) -> Seq<PixelWrite>
    decreases rows,
{
    if rows == 0 {
        Seq::empty()
    } else {
        let row = (rows - 1) as nat;
        dotted_writes(x, top, row, w, h) + (if row % 8 < 4 {
            clipped_rect_writes(x, top + row, x + 2, top + row + 1, w, h, Color::Black)
        } else {
            Seq::empty()
        })
    }
}

/// The marker of the present: a dotted line down the middle of the plot.
pub open spec fn center_marker_writes(chart: Area, w: nat, h: nat) -> Seq<PixelWrite>
    recommends
        chart.width >= 2 * PLOT_MARGIN,
        chart.height >= 2 * PLOT_MARGIN,
{
    let plot_x = (chart.x + PLOT_MARGIN) as nat;
    let plot_y = (chart.y + PLOT_MARGIN) as nat;
    let plot_width = (chart.width - 2 * PLOT_MARGIN) as nat;
    let plot_height = (chart.height - 2 * PLOT_MARGIN) as nat;
    dotted_writes(plot_x + plot_width / 2, plot_y, plot_height, w, h)
}

/// One step of an arm of the cross: the pixel at `(x, y)`, its right
/// neighbour and the one below it, in red.
pub open spec fn cross_step_writes(x: nat, y: nat, w: nat, h: nat) -> Seq<PixelWrite> {
    clipped_rect_writes(x, y, x + 2, y + 1, w, h, Color::Red) + clipped_rect_writes(
        x,
        y + 1,
        x + 1,
        y + 2,
        w,
        h,
        Color::Red,
    )
}

/// The first `steps` steps of the cross round `(x, y)`: one arm runs down
/// to the right from four pixels up and left of it, the other down to the
/// left from four pixels up and right of it, as far as its steps lie
/// right of the panel's left edge.
pub open spec fn cross_writes(x: nat, y: nat, steps: nat, w: nat, h: nat) -> Seq<PixelWrite>
    recommends
        steps <= 8,
    decreases steps,
{
    if steps == 0 {
        Seq::empty()
    } else {
        let i = (steps - 1) as nat;
        cross_writes(x, y, i, w, h) + cross_step_writes(
            minus_or_zero(x, 4) + i,
            minus_or_zero(y, 4) + i,
            w,
            h,
        ) + (if x + 4 >= i {
            cross_step_writes((x + 4 - i) as nat, minus_or_zero(y, 4) + i, w, h)
        } else {
            Seq::empty()
        })
    }
}

/// One sample of the curve at `(x, y)`. A sample of the present is a red
/// square of five pixels with a red cross of eight steps over it; any other
/// is a black square of two pixels.
pub open spec fn sample_writes(x: nat, y: nat, mins_rel: i16, w: nat, h: nat) -> Seq<PixelWrite> {
    if is_now(mins_rel) {
        clipped_rect_writes(x, y, x + 5, y + 5, w, h, Color::Red) + cross_writes(x, y, 8, w, h)
    } else {
        clipped_rect_writes(x, y, x + 2, y + 2, w, h, Color::Black)
    }
}

/// One dot of a wave: a black square of three pixels at `(x, y)`, cut off
/// at the right and lower edges of the chart.
pub open spec fn wave_dot_writes(x: nat, y: nat, chart: Area) -> Seq<PixelWrite> {
    clipped_rect_writes(
        x,
        y,
        x + 3,
        y + 3,
        (chart.x + chart.width) as nat,
        (chart.y + chart.height) as nat,
        Color::Black,
    )
}

/// A sample of the curve as it is drawn: its place on the panel, and its
/// distance from the present in minutes.
#[derive(Clone, Copy, Debug, PartialEq, Eq, Structural)]
pub struct PlotPoint {
    pub x: u32,
    pub y: u32,
    pub mins_rel: i16,
}

/// The place of a dot on the panel.
#[derive(Clone, Copy, Debug, PartialEq, Eq, Structural)]
pub struct Dot {
    pub x: u32,
    pub y: u32,
}

/// What is drawn into the plot of a chart.
#[derive(Debug)]
pub enum Curve {
    /// The samples of a tide curve.
    Samples(Vec<PlotPoint>),
    /// The dots of a wave that stands in where there are no samples.
    Wave(Vec<Dot>),
}

/// The samples of a curve, one after the other.
pub open spec fn samples_writes(points: Seq<PlotPoint>, w: nat, h: nat) -> Seq<PixelWrite>
    decreases points.len(),
{
    if points.len() == 0 {
        Seq::empty()
    } else {
        samples_writes(points.drop_last(), w, h) + sample_writes(
            points.last().x as nat,
            points.last().y as nat,
            points.last().mins_rel,
            w,
            h,
        )
    }
}

/// The dots of a wave, one after the other.
pub open spec fn wave_writes(dots: Seq<Dot>, chart: Area) -> Seq<PixelWrite>
    decreases dots.len(),
{
    if dots.len() == 0 {
        Seq::empty()
    } else {
        wave_writes(dots.drop_last(), chart) + wave_dot_writes(
            dots.last().x as nat,
            dots.last().y as nat,
            chart,
        )
    }
}

/// What is drawn into the plot of a chart.
pub open spec fn curve_writes(curve: Curve, chart: Area, w: nat, h: nat) -> Seq<PixelWrite> {
    match curve {
        Curve::Samples(points) => samples_writes(points@, w, h),
        Curve::Wave(dots) => wave_writes(dots@, chart),
    }
}

/// A whole chart: axes, marker of the present, curve.
pub open spec fn chart_writes(
    chart: Area,
    labels: Seq<Seq<char>>,
    curve: Curve,
    w: nat,
    h: nat,
) -> Seq<PixelWrite>
    recommends
        axes_fit(chart),
{
    axes_writes(chart, labels, w, h) + center_marker_writes(chart, w, h) + curve_writes(
        curve,
        chart,
        w,
        h,
    )
}

impl EinkTideRenderer {
    /// The area of the chart: the panel without the margin.
    pub open spec fn spec_chart_area(&self) -> Option<Area> {
        (Area { x: 0, y: 0, width: self.width(), height: self.height() }).spec_inset(self.margin())
    }

    /// The area of the chart: the panel without the margin.
    #[verifier::when_used_as_spec(spec_chart_area)]
    pub fn chart_area(&self) -> (chart: Option<Area>)
        ensures
            chart == self.spec_chart_area(),
    {
        let panel = Area { x: 0, y: 0, width: self.width(), height: self.height() };
        panel.inset(self.margin())
    }

    /// Fills one more rectangle after the requests `done`.
    fn fill_more(
        &self,
        buffer: &mut DisplayBuffer,
        Ghost(start): Ghost<FrameView>,
        Ghost(done): Ghost<Seq<PixelWrite>>,
        x0: u64,
        y0: u64,
        x1: u64,
        y1: u64,
        color: Color,
    )
        requires
            start.wf(),
            old(buffer)@ == start.paint_all(done),
        ensures
            final(buffer)@ == start.paint_all(
                done + clipped_rect_writes(
                    x0 as nat,
                    y0 as nat,
                    x1 as nat,
                    y1 as nat,
                    self.width() as nat,
                    self.height() as nat,
                    color,
                ),
            ),
            final(buffer)@.wf(),
    {
        proof {
            start.lemma_paint_all_wf(done);
            start.lemma_paint_all_concat(
                done,
                clipped_rect_writes(
                    x0 as nat,
                    y0 as nat,
                    x1 as nat,
                    y1 as nat,
                    self.width() as nat,
                    self.height() as nat,
                    color,
                ),
            );
        }
        self.fill(buffer, x0, y0, x1, y1, color);
    }

    /// Draws one more text after the requests `done`.
    fn text_more(
        &self,
        buffer: &mut DisplayBuffer,
        Ghost(start): Ghost<FrameView>,
        Ghost(done): Ghost<Seq<PixelWrite>>,
        font: Font,
        x: u64,
        y: u64,
        text: &str,
    )
        requires
            start.wf(),
            old(buffer)@ == start.paint_all(done),
            x <= 0x100_0000_0000,
            y <= 0x100_0000_0000,
        ensures
            final(buffer)@ == start.paint_all(
                done + text_writes(
                    font,
                    text@,
                    x as nat,
                    y as nat,
                    self.width() as nat,
                    self.height() as nat,
                ),
            ),
            final(buffer)@.wf(),
    {
        proof {
            start.lemma_paint_all_wf(done);
            start.lemma_paint_all_concat(
                done,
                text_writes(
                    font,
                    text@,
                    x as nat,
                    y as nat,
                    self.width() as nat,
                    self.height() as nat,
                ),
            );
        }
        self.draw_text_at(buffer, font, x, y, text);
    }

    /// Draws the marks of the height axis after the requests `done`.
    fn ticks_more(
        &self,
        buffer: &mut DisplayBuffer,
        Ghost(start): Ghost<FrameView>,
        Ghost(done): Ghost<Seq<PixelWrite>>,
        plot_x: u64,
        plot_y: u64,
        plot_height: u64,
        labels: &Vec<String>,
    )
        requires
            start.wf(),
            old(buffer)@ == start.paint_all(done),
            12 <= plot_x <= 0x2_0000_0000,
            plot_y <= 0x2_0000_0000,
            plot_height <= 0x1_0000_0000,
            labels@.len() == TICKS,
        ensures
            final(buffer)@ == start.paint_all(
                done + ticks_writes(
                    plot_x as nat,
                    plot_y as nat,
                    plot_height as nat,
                    texts_of(labels@),
                    self.width() as nat,
                    self.height() as nat,
                ),
            ),
            final(buffer)@.wf(),
    {
        let ghost w = self.width() as nat;
        let ghost h = self.height() as nat;
        let ghost texts = texts_of(labels@);
        let mut i: usize = 0;
        proof {
            start.lemma_paint_all_wf(done);
            assert(texts.take(0) =~= Seq::<Seq<char>>::empty());
            assert(done + ticks_writes(
                plot_x as nat,
                plot_y as nat,
                plot_height as nat,
                texts.take(0),
                w,
                h,
            ) =~= done);
        }
        while i < labels.len()
            invariant
                i <= labels@.len(),
                labels@.len() == TICKS,
                texts == texts_of(labels@),
                w == self.width(),
                h == self.height(),
                12 <= plot_x <= 0x2_0000_0000,
                plot_y <= 0x2_0000_0000,
                plot_height <= 0x1_0000_0000,
                start.wf(),
                buffer@.wf(),
                buffer@ == start.paint_all(
                    done + ticks_writes(
                        plot_x as nat,
                        plot_y as nat,
                        plot_height as nat,
                        texts.take(i as int),
                        w,
                        h,
                    ),
                ),
            decreases labels@.len() - i,
        {
            let ghost before = done + ticks_writes(
                plot_x as nat,
                plot_y as nat,
                plot_height as nat,
                texts.take(i as int),
                w,
                h,
            );
            assert(i * plot_height <= 5 * 0x1_0000_0000) by (nonlinear_arith)
                requires
                    i < 5,
                    plot_height <= 0x1_0000_0000,
            ;
            let tick_y: u64 = plot_y + (i as u64) * plot_height / 4;
            let label_y: u64 = if tick_y >= 3 {
                tick_y - 3
            } else {
                0
            };
            self.fill_more(
                buffer,
                Ghost(start),
                Ghost(before),
                plot_x - 5,
                tick_y,
                plot_x,
                tick_y + 2,
                Color::Black,
            );
            let ghost bar = clipped_rect_writes(
                (plot_x - 5) as nat,
                tick_y as nat,
                plot_x as nat,
                (tick_y + 2) as nat,
                w,
                h,
                Color::Black,
            );
            self.text_more(
                buffer,
                Ghost(start),
                Ghost(before + bar),
                Font::Simple,
                plot_x - 12,
                label_y,
                labels[i].as_str(),
            );
            proof {
                let next = texts.take(i + 1);
                assert(next.drop_last() =~= texts.take(i as int));
                assert(next.last() == labels@[i as int]@);
                let label = text_writes(
                    Font::Simple,
                    labels@[i as int]@,
                    (plot_x - 12) as nat,
                    label_y as nat,
                    w,
                    h,
                );
                assert(bar + label == tick_writes(
                    plot_x as nat,
                    plot_y as nat,
                    plot_height as nat,
                    i as nat,
                    next.last(),
                    w,
                    h,
                ));
                assert(before + bar + label =~= done + ticks_writes(
                    plot_x as nat,
                    plot_y as nat,
                    plot_height as nat,
                    next,
                    w,
                    h,
                ));
            }
            i = i + 1;
        }
        assert(texts.take(i as int) =~= texts);
    }

    /// Draws the axes of a chart, with the given labels at the marks of the
    /// height axis, from the top down.
    pub fn draw_axes(&self, buffer: &mut DisplayBuffer, chart: Area, labels: &Vec<String>)
        requires
            old(buffer)@.wf(),
            axes_fit(chart),
            labels@.len() == TICKS,
        ensures
            final(buffer)@ == old(buffer)@.paint_all(
                axes_writes(
                    chart,
                    texts_of(labels@),
                    self.width() as nat,
                    self.height() as nat,
                ),
            ),
            final(buffer)@.wf(),
    {
        let ghost start = buffer@;
        let ghost w = self.width() as nat;
        let ghost h = self.height() as nat;
        let plot_x: u64 = chart.x as u64 + PLOT_MARGIN as u64;
        let plot_y: u64 = chart.y as u64 + PLOT_MARGIN as u64;
        let plot_width: u64 = (chart.width - 2 * PLOT_MARGIN) as u64;
        let plot_height: u64 = (chart.height - 2 * PLOT_MARGIN) as u64;
        let axis_y: u64 = plot_y + plot_height;
        let label_y: u64 = axis_y + 10;

        let ghost done = Seq::<PixelWrite>::empty();
        self.fill_more(
            buffer,
            Ghost(start),
            Ghost(done),
            plot_x,
            axis_y,
            plot_x + plot_width,
            axis_y + 2,
            Color::Black,
        );
        let ghost done = done + clipped_rect_writes(
            plot_x as nat,
            axis_y as nat,
            (plot_x + plot_width) as nat,
            (axis_y + 2) as nat,
            w,
            h,
            Color::Black,
        );
        self.fill_more(
            buffer,
            Ghost(start),
            Ghost(done),
            plot_x,
            plot_y,
            plot_x + 2,
            plot_y + plot_height,
            Color::Black,
        );
        let ghost done = done + clipped_rect_writes(
            plot_x as nat,
            plot_y as nat,
            (plot_x + 2) as nat,
            (plot_y + plot_height) as nat,
            w,
            h,
            Color::Black,
        );
        self.ticks_more(buffer, Ghost(start), Ghost(done), plot_x, plot_y, plot_height, labels);
        let ghost done = done + ticks_writes(
            plot_x as nat,
            plot_y as nat,
            plot_height as nat,
            texts_of(labels@),
            w,
            h,
        );
        self.time_labels_more(buffer, Ghost(start), Ghost(done), plot_x, plot_width, label_y);
        let ghost done = done + time_labels_writes(
            plot_x as nat,
            plot_width as nat,
            label_y as nat,
            w,
            h,
        );
        self.side_labels_more(buffer, Ghost(start), Ghost(done), chart.y, plot_x, chart.height);
        let ghost done = done + side_labels_writes(
            chart.y as nat,
            plot_x as nat,
            chart.height as nat,
            w,
            h,
        );
        assert(done =~= axes_writes(chart, texts_of(labels@), w, h));
    }

    /// Draws the labels under the time axis after the requests `done`.
    fn time_labels_more(
        &self,
        buffer: &mut DisplayBuffer,
        Ghost(start): Ghost<FrameView>,
        Ghost(done): Ghost<Seq<PixelWrite>>,
        plot_x: u64,
        plot_width: u64,
        label_y: u64,
    )
        requires
            start.wf(),
            old(buffer)@ == start.paint_all(done),
            15 <= plot_x <= 0x2_0000_0000,
            plot_width <= 0x1_0000_0000,
            plot_x + plot_width >= 40,
            label_y <= 0x4_0000_0000,
        ensures
            final(buffer)@ == start.paint_all(
                done + time_labels_writes(
                    plot_x as nat,
                    plot_width as nat,
                    label_y as nat,
                    self.width() as nat,
                    self.height() as nat,
                ),
            ),
            final(buffer)@.wf(),
    {
        let ghost w = self.width() as nat;
        let ghost h = self.height() as nat;
        if label_y + 12 < self.height() as u64 {
            let center_x: u64 = plot_x + plot_width / 2;
            self.text_more(buffer, Ghost(start), Ghost(done), Font::Large, plot_x, label_y, "-12h");
            let ghost past = done + text_writes(
                Font::Large,
                "-12h"@,
                plot_x as nat,
                label_y as nat,
                w,
                h,
            );
            self.text_more(
                buffer,
                Ghost(start),
                Ghost(past),
                Font::Large,
                center_x - 15,
                label_y,
                "Now",
            );
            let ghost present = past + text_writes(
                Font::Large,
                "Now"@,
                (center_x - 15) as nat,
                label_y as nat,
                w,
                h,
            );
            self.text_more(
                buffer,
                Ghost(start),
                Ghost(present),
                Font::Large,
                plot_x + plot_width - 40,
                label_y,
                "+12h",
            );
            assert(present + text_writes(
                Font::Large,
                "+12h"@,
                (plot_x + plot_width - 40) as nat,
                label_y as nat,
                w,
                h,
            ) =~= done + time_labels_writes(
                plot_x as nat,
                plot_width as nat,
                label_y as nat,
                w,
                h,
            ));
        } else {
            proof {
                start.lemma_paint_all_wf(done);
                assert(done + time_labels_writes(
                    plot_x as nat,
                    plot_width as nat,
                    label_y as nat,
                    w,
                    h,
                ) =~= done);
            }
        }
    }

    /// Draws the words beside the height axis after the requests `done`.
    fn side_labels_more(
        &self,
        buffer: &mut DisplayBuffer,
        Ghost(start): Ghost<FrameView>,
        Ghost(done): Ghost<Seq<PixelWrite>>,
        chart_y: u32,
        axis_x: u64,
        chart_height: u32,
    )
        requires
            start.wf(),
            old(buffer)@ == start.paint_all(done),
            axis_x <= 0x2_0000_0000,
            chart_y + chart_height / 2 >= 6,
            chart_y + chart_height >= 50,
        ensures
            final(buffer)@ == start.paint_all(
                done + side_labels_writes(
                    chart_y as nat,
                    axis_x as nat,
                    chart_height as nat,
                    self.width() as nat,
                    self.height() as nat,
                ),
            ),
            final(buffer)@.wf(),
    {
        let ghost w = self.width() as nat;
        let ghost h = self.height() as nat;
        let label_x: u64 = if axis_x >= 40 {
            axis_x - 40
        } else {
            5
        };
        let top: u64 = chart_y as u64;
        let height: u64 = chart_height as u64;
        self.text_more(buffer, Ghost(start), Ghost(done), Font::Simple, label_x, top + 30, "Hi");
        let ghost high = done + text_writes(
            Font::Simple,
            "Hi"@,
            label_x as nat,
            (top + 30) as nat,
            w,
            h,
        );
        self.text_more(
            buffer,
            Ghost(start),
            Ghost(high),
            Font::Simple,
            label_x,
            top + height / 2 - 6,
            "Mid",
        );
        let ghost middle = high + text_writes(
            Font::Simple,
            "Mid"@,
            label_x as nat,
            (top + height / 2 - 6) as nat,
            w,
            h,
        );
        self.text_more(
            buffer,
            Ghost(start),
            Ghost(middle),
            Font::Simple,
            label_x,
            top + height - 50,
            "Lo",
        );
        assert(middle + text_writes(
            Font::Simple,
            "Lo"@,
            label_x as nat,
            (top + height - 50) as nat,
            w,
            h,
        ) =~= done + side_labels_writes(
            chart_y as nat,
            axis_x as nat,
            chart_height as nat,
            w,
            h,
        ));
    }

    /// Draws the marker of the present down the middle of a chart's plot.
    pub fn draw_center_marker(&self, buffer: &mut DisplayBuffer, chart: Area)
        requires
            old(buffer)@.wf(),
            chart.width >= 2 * PLOT_MARGIN,
            chart.height >= 2 * PLOT_MARGIN,
        ensures
            final(buffer)@ == old(buffer)@.paint_all(
                center_marker_writes(chart, self.width() as nat, self.height() as nat),
            ),
            final(buffer)@.wf(),
    {
        let ghost start = buffer@;
        let ghost w = self.width() as nat;
        let ghost h = self.height() as nat;
        let plot_x: u64 = chart.x as u64 + PLOT_MARGIN as u64;
        let plot_y: u64 = chart.y as u64 + PLOT_MARGIN as u64;
        let plot_width: u64 = (chart.width - 2 * PLOT_MARGIN) as u64;
        let plot_height: u64 = (chart.height - 2 * PLOT_MARGIN) as u64;
        let center_x: u64 = plot_x + plot_width / 2;
        let mut row: u64 = 0;
        while row < plot_height
            invariant
                row <= plot_height <= 0x1_0000_0000,
                center_x <= 0x2_0000_0000,
                plot_y <= 0x2_0000_0000,
                w == self.width(),
                h == self.height(),
                start.wf(),
                buffer@.wf(),
                buffer@ == start.paint_all(
                    dotted_writes(center_x as nat, plot_y as nat, row as nat, w, h),
                ),
            decreases plot_height - row,
        {
            let ghost done = dotted_writes(center_x as nat, plot_y as nat, row as nat, w, h);
            if row % 8 < 4 {
                self.fill_more(
                    buffer,
                    Ghost(start),
                    Ghost(done),
                    center_x,
                    plot_y + row,
                    center_x + 2,
                    plot_y + row + 1,
                    Color::Black,
                );
            } else {
                assert(done + Seq::<PixelWrite>::empty() =~= done);
            }
            row = row + 1;
        }
    }

    /// Draws one step of an arm of the cross after the requests `done`.
    fn cross_step_more(
        &self,
        buffer: &mut DisplayBuffer,
        Ghost(start): Ghost<FrameView>,
        Ghost(done): Ghost<Seq<PixelWrite>>,
        x: u64,
        y: u64,
    )
        requires
            start.wf(),
            old(buffer)@ == start.paint_all(done),
            x <= 0x2_0000_0000,
            y <= 0x2_0000_0000,
        ensures
            final(buffer)@ == start.paint_all(
                done + cross_step_writes(
                    x as nat,
                    y as nat,
                    self.width() as nat,
                    self.height() as nat,
                ),
            ),
            final(buffer)@.wf(),
    {
        let ghost w = self.width() as nat;
        let ghost h = self.height() as nat;
        self.fill_more(buffer, Ghost(start), Ghost(done), x, y, x + 2, y + 1, Color::Red);
        let ghost first = clipped_rect_writes(
            x as nat,
            y as nat,
            (x + 2) as nat,
            (y + 1) as nat,
            w,
            h,
            Color::Red,
        );
        self.fill_more(
            buffer,
            Ghost(start),
            Ghost(done + first),
            x,
            y + 1,
            x + 1,
            y + 2,
            Color::Red,
        );
        assert(done + first + clipped_rect_writes(
            x as nat,
            (y + 1) as nat,
            (x + 1) as nat,
            (y + 2) as nat,
            w,
            h,
            Color::Red,
        ) =~= done + cross_step_writes(x as nat, y as nat, w, h));
    }

    /// Draws one sample of the curve at `(x, y)`: a sample of the present
    /// in red, with a cross over it, any other as a small black square.
    pub fn draw_sample(&self, buffer: &mut DisplayBuffer, x: u32, y: u32, mins_rel: i16)
        requires
            old(buffer)@.wf(),
        ensures
            final(buffer)@ == old(buffer)@.paint_all(
                sample_writes(
                    x as nat,
                    y as nat,
                    mins_rel,
                    self.width() as nat,
                    self.height() as nat,
                ),
            ),
            final(buffer)@.wf(),
    {
        let ghost start = buffer@;
        let ghost w = self.width() as nat;
        let ghost h = self.height() as nat;
        let sx: u64 = x as u64;
        let sy: u64 = y as u64;
        if !is_now(mins_rel) {
            self.fill(buffer, sx, sy, sx + 2, sy + 2, Color::Black);
            return ;
        }
        self.fill(buffer, sx, sy, sx + 5, sy + 5, Color::Red);
        let ghost dot = clipped_rect_writes(
            x as nat,
            y as nat,
            (x + 5) as nat,
            (y + 5) as nat,
            w,
            h,
            Color::Red,
        );
        let left: u64 = if sx >= 4 {
            sx - 4
        } else {
            0
        };
        let top: u64 = if sy >= 4 {
            sy - 4
        } else {
            0
        };
        let mut i: u64 = 0;
        assert(dot + cross_writes(x as nat, y as nat, 0, w, h) =~= dot);
        while i < 8
            invariant
                i <= 8,
                sx == x,
                sy == y,
                left == minus_or_zero(x as nat, 4),
                top == minus_or_zero(y as nat, 4),
                w == self.width(),
                h == self.height(),
                start.wf(),
                buffer@.wf(),
                buffer@ == start.paint_all(dot + cross_writes(x as nat, y as nat, i as nat, w, h)),
            decreases 8 - i,
        {
            let ghost done = dot + cross_writes(x as nat, y as nat, i as nat, w, h);
            self.cross_step_more(buffer, Ghost(start), Ghost(done), left + i, top + i);
            let ghost down = cross_step_writes((left + i) as nat, (top + i) as nat, w, h);
            if sx + 4 >= i {
                self.cross_step_more(
                    buffer,
                    Ghost(start),
                    Ghost(done + down),
                    sx + 4 - i,
                    top + i,
                );
                assert(done + down + cross_step_writes(
                    (sx + 4 - i) as nat,
                    (top + i) as nat,
                    w,
                    h,
                ) =~= dot + cross_writes(x as nat, y as nat, (i + 1) as nat, w, h));
            } else {
                assert(done + down =~= dot + cross_writes(
                    x as nat,
                    y as nat,
                    (i + 1) as nat,
                    w,
                    h,
                ));
            }
            i = i + 1;
        }
    }

    /// Draws one dot of a wave at `(x, y)`, cut off at the right and lower
    /// edges of the chart.
    pub fn draw_wave_dot(&self, buffer: &mut DisplayBuffer, x: u32, y: u32, chart: Area)
        requires
            old(buffer)@.wf(),
            chart.x + chart.width <= u32::MAX,
            chart.y + chart.height <= u32::MAX,
        ensures
            final(buffer)@ == old(buffer)@.paint_all(wave_dot_writes(x as nat, y as nat, chart)),
            final(buffer)@.wf(),
    {
        fill_clipped(
            buffer,
            x as u64,
            y as u64,
            x as u64 + 3,
            y as u64 + 3,
            chart.x + chart.width,
            chart.y + chart.height,
            Color::Black,
        );
    }

    /// Draws the samples of a curve.
    pub fn draw_samples(&self, buffer: &mut DisplayBuffer, points: &Vec<PlotPoint>)
        requires
            old(buffer)@.wf(),
        ensures
            final(buffer)@ == old(buffer)@.paint_all(
                samples_writes(points@, self.width() as nat, self.height() as nat),
            ),
            final(buffer)@.wf(),
    {
        let ghost start = buffer@;
        let ghost w = self.width() as nat;
        let ghost h = self.height() as nat;
        let mut i: usize = 0;
        assert(points@.take(0) =~= Seq::<PlotPoint>::empty());
        while i < points.len()
            invariant
                i <= points@.len(),
                w == self.width(),
                h == self.height(),
                start.wf(),
                buffer@.wf(),
                buffer@ == start.paint_all(samples_writes(points@.take(i as int), w, h)),
            decreases points@.len() - i,
        {
            let ghost done = samples_writes(points@.take(i as int), w, h);
            let p = points[i];
            self.draw_sample(buffer, p.x, p.y, p.mins_rel);
            proof {
                let next = points@.take(i + 1);
                assert(next.drop_last() =~= points@.take(i as int));
                assert(next.last() == p);
                start.lemma_paint_all_concat(
                    done,
                    sample_writes(p.x as nat, p.y as nat, p.mins_rel, w, h),
                );
            }
            i = i + 1;
        }
        assert(points@.take(i as int) =~= points@);
    }

    /// Draws the dots of a wave, cut off at the right and lower edges of
    /// the chart.
    pub fn draw_wave(&self, buffer: &mut DisplayBuffer, dots: &Vec<Dot>, chart: Area)
        requires
            old(buffer)@.wf(),
            chart.x + chart.width <= u32::MAX,
            chart.y + chart.height <= u32::MAX,
        ensures
            final(buffer)@ == old(buffer)@.paint_all(wave_writes(dots@, chart)),
            final(buffer)@.wf(),
    {
        let ghost start = buffer@;
        let mut i: usize = 0;
        assert(dots@.take(0) =~= Seq::<Dot>::empty());
        while i < dots.len()
            invariant
                i <= dots@.len(),
                chart.x + chart.width <= u32::MAX,
                chart.y + chart.height <= u32::MAX,
                start.wf(),
                buffer@.wf(),
                buffer@ == start.paint_all(wave_writes(dots@.take(i as int), chart)),
            decreases dots@.len() - i,
        {
            let ghost done = wave_writes(dots@.take(i as int), chart);
            let d = dots[i];
            self.draw_wave_dot(buffer, d.x, d.y, chart);
            proof {
                let next = dots@.take(i + 1);
                assert(next.drop_last() =~= dots@.take(i as int));
                assert(next.last() == d);
                start.lemma_paint_all_concat(done, wave_dot_writes(d.x as nat, d.y as nat, chart));
            }
            i = i + 1;
        }
        assert(dots@.take(i as int) =~= dots@);
    }

    /// Draws a whole chart into `chart`: its axes with the given labels,
    /// the marker of the present, and the curve.
    pub fn render_chart(
        &self,
        buffer: &mut DisplayBuffer,
        chart: Area,
        labels: &Vec<String>,
        curve: &Curve,
    )
        requires
            old(buffer)@.wf(),
            axes_fit(chart),
            chart.x + chart.width <= u32::MAX,
            chart.y + chart.height <= u32::MAX,
            labels@.len() == TICKS,
        ensures
            final(buffer)@ == old(buffer)@.paint_all(
                chart_writes(
                    chart,
                    texts_of(labels@),
                    *curve,
                    self.width() as nat,
                    self.height() as nat,
                ),
            ),
            final(buffer)@.wf(),
    {
        let ghost start = buffer@;
        let ghost w = self.width() as nat;
        let ghost h = self.height() as nat;
        self.draw_axes(buffer, chart, labels);
        let ghost axes = axes_writes(chart, texts_of(labels@), w, h);
        self.draw_center_marker(buffer, chart);
        let ghost marker = center_marker_writes(chart, w, h);
        match curve {
            Curve::Samples(points) => {
                self.draw_samples(buffer, points);
            },
            Curve::Wave(dots) => {
                self.draw_wave(buffer, dots, chart);
            },
        }
        proof {
            start.lemma_paint_all_concat(axes, marker);
            start.lemma_paint_all_concat(axes + marker, curve_writes(*curve, chart, w, h));
        }
    }
}

} // verus!
