use tide_clock_lib::eink_renderer::chart::{PLOT_MARGIN, TICKS};
use tide_clock_lib::eink_renderer::{is_now, Area, Curve, Dot, EinkTideRenderer, PlotPoint};
use tide_clock_lib::epd4in2b_v2::DisplayBuffer;

fn mark(buffer: &DisplayBuffer, x: u32, y: u32) -> char {
    let bytes_per_row = (buffer.width() as usize + 7) / 8;
    let i = y as usize * bytes_per_row + x as usize / 8;
    let mask = 0x80u8 >> (x % 8);
    match (buffer.black_buffer()[i] & mask != 0, buffer.red_buffer()[i] & mask != 0) {
        (true, false) => '.',
        (false, false) => '#',
        (true, true) => 'r',
        (false, true) => '?',
    }
}

/// The part of the buffer from `(x0, y0)`, `w` columns wide and `h` rows
/// high, one string for each row: `#` for black, `r` for red.
fn rows(buffer: &DisplayBuffer, x0: u32, y0: u32, w: u32, h: u32) -> Vec<String> {
    (y0..y0 + h).map(|y| (x0..x0 + w).map(|x| mark(buffer, x, y)).collect()).collect()
}

/// Number of the pixels of one colour, and a sum over their places taken
/// column by column.
fn digest(buffer: &DisplayBuffer, colour: char) -> (usize, u64) {
    let mut n = 0;
    let mut t: u64 = 0;
    for x in 0..buffer.width() {
        for y in 0..buffer.height() {
            if mark(buffer, x, y) == colour {
                n += 1;
                t = (t * 31 + x as u64 * 1009 + y as u64) % 1000000007;
            }
        }
    }
    (n, t)
}

fn panel() -> DisplayBuffer {
    DisplayBuffer::new(400, 300)
}

fn labels(texts: [&str; 5]) -> Vec<String> {
    texts.iter().map(|t| t.to_string()).collect()
}

fn chart() -> Area {
    Area { x: 20, y: 20, width: 360, height: 260 }
}

#[test]
fn axes_of_the_panel_chart() {
    let renderer = EinkTideRenderer::new();
    let mut buffer = panel();
    renderer.draw_axes(&mut buffer, chart(), &labels(["10", "8", "5", "2", "-1"]));
    assert_eq!(digest(&buffer, '#'), (1738, 668384300));
    assert_eq!(digest(&buffer, 'r'), (0, 0));
    let top_left = [
        "....................",
        "....................",
        ".....#...###........",
        ".....#...###........",
        ".....#...###........",
        ".....#...########...",
        ".....#...########...",
        ".....#.........##...",
        ".....#.........##...",
        "...............##...",
        "...............##...",
        "...............##...",
    ];
    assert_eq!(rows(&buffer, 20, 30, 20, 12), top_left);
    let bottom_left = [
        "...............##...........................................",
        "...............##...........................................",
        "...............##...........................................",
        "...............##...........................................",
        "...........#...##...........................................",
        "...........#...##...........................................",
        "...........#...##...........................................",
        "...####...##################################################",
        "..........##################################################",
        "...........#................................................",
        "...........#................................................",
        "............................................................",
        "............................................................",
        "............................................................",
        "............................................................",
        "............................................................",
        "............................................................",
        "............................##......######...##.............",
        "..........................####......######...##.............",
        "............................##..........##...##.............",
        "............................##..........##...##.............",
        "............................##..........##...##.............",
        "................######......##......######...######.........",
        "................######......##......######...######.........",
        "............................##...............##..##.........",
        "............................##...............##..##.........",
        "............................##...............##..##.........",
        "............................##......######...##..##.........",
        "............................##......######...##..##.........",
        "............................................................",
    ];
    assert_eq!(rows(&buffer, 20, 258, 60, 30), bottom_left);
    let bottom_right = [
        "..................................................",
        "..................................................",
        "..................................................",
        "..................................................",
        "..................................................",
        "#############################################.....",
        "#############################################.....",
        "..................................................",
        "..................................................",
        "..................................................",
        "..................................................",
        "..................................................",
        "..................................................",
        "..................................................",
        "..................................................",
        "..................##......######...##.............",
        "................####......######...##.............",
        "........##........##..........##...##.............",
        "........##........##..........##...##.............",
        "........##........##..........##...##.............",
        ".......####.......##......######...######.........",
        ".......####.......##......######...######.........",
        "........##........##...............##..##.........",
        "........##........##...............##..##.........",
        "........##........##...............##..##.........",
        "..................##......######...##..##.........",
        "..................##......######...##..##.........",
        "..................................................",
    ];
    assert_eq!(rows(&buffer, 320, 260, 50, 28), bottom_right);
}

#[test]
fn axes_without_room_for_time_labels() {
    let renderer = EinkTideRenderer::new();
    let mut buffer = panel();
    let chart = Area { x: 30, y: 25, width: 60, height: 262 };
    renderer.draw_axes(&mut buffer, chart, &labels(["a", "b", "c", "d", "e"]));
    assert_eq!(digest(&buffer, '#'), (1050, 82354702));
    assert_eq!(digest(&buffer, 'r'), (0, 0));
}

#[test]
fn axes_of_a_chart_as_large_as_the_panel() {
    let renderer = EinkTideRenderer::new();
    let mut buffer = panel();
    let chart = Area { x: 0, y: 0, width: 400, height: 300 };
    renderer.draw_axes(&mut buffer, chart, &labels(["+", "1", "2", "h", "w"]));
    assert_eq!(digest(&buffer, '#'), (1477, 17474473));
    assert_eq!(digest(&buffer, 'r'), (0, 0));
}

#[test]
fn axes_of_a_chart_that_leaves_the_panel() {
    let renderer = EinkTideRenderer::new();
    let mut buffer = panel();
    let chart = Area { x: 350, y: 250, width: 200, height: 100 };
    renderer.draw_axes(&mut buffer, chart, &labels(["1", "2", "1", "2", "1"]));
    assert_eq!(digest(&buffer, '#'), (184, 334714808));
    assert_eq!(digest(&buffer, 'r'), (0, 0));
}

#[test]
fn center_marker_of_the_panel_chart() {
    let renderer = EinkTideRenderer::new();
    let mut buffer = panel();
    renderer.draw_center_marker(&mut buffer, chart());
    assert_eq!(digest(&buffer, '#'), (232, 163517338));
    assert_eq!(digest(&buffer, 'r'), (0, 0));
    let top = [
        "......",
        "......",
        "..##..",
        "..##..",
        "..##..",
        "..##..",
        "......",
        "......",
        "......",
        "......",
        "..##..",
        "..##..",
        "..##..",
        "..##..",
        "......",
        "......",
        "......",
        "......",
        "..##..",
        "..##..",
    ];
    assert_eq!(rows(&buffer, 198, 33, 6, 20), top);
    let bottom = [
        "......",
        "......",
        "......",
        "......",
        "..##..",
        "..##..",
        "..##..",
        "..##..",
        "......",
        "......",
        "......",
        "......",
    ];
    assert_eq!(rows(&buffer, 198, 255, 6, 12), bottom);
}

#[test]
fn center_marker_is_cut_off_at_the_bottom() {
    let renderer = EinkTideRenderer::new();
    let mut buffer = panel();
    renderer.draw_center_marker(&mut buffer, Area { x: 100, y: 200, width: 30, height: 200 });
    assert_eq!(digest(&buffer, '#'), (88, 753150409));
    assert_eq!(digest(&buffer, 'r'), (0, 0));
}

#[test]
fn sample_away_from_the_present_is_a_black_square() {
    let renderer = EinkTideRenderer::new();
    let mut buffer = panel();
    renderer.draw_sample(&mut buffer, 100, 120, -30);
    let expected = [
        "....",
        ".##.",
        ".##.",
        "....",
    ];
    assert_eq!(rows(&buffer, 99, 119, 4, 4), expected);
    assert_eq!(digest(&buffer, '#'), (4, 109832909));
    assert_eq!(digest(&buffer, 'r'), (0, 0));
}

#[test]
fn sample_of_the_present_is_red_with_a_cross() {
    let renderer = EinkTideRenderer::new();
    let mut buffer = panel();
    renderer.draw_sample(&mut buffer, 200, 150, 0);
    let expected = [
        "..............",
        "..............",
        "..rr......rr..",
        "..rrr....rr...",
        "...rrr..rr....",
        "....rrrrr.....",
        ".....rrrrrr...",
        ".....rrrrrr...",
        "....rrrrrrr...",
        "...rr.rrrrr...",
        "...r..rrrrr...",
        "..............",
    ];
    assert_eq!(rows(&buffer, 194, 144, 14, 12), expected);
    assert_eq!(digest(&buffer, '#'), (0, 0));
    assert_eq!(digest(&buffer, 'r'), (51, 588805050));
}

#[test]
fn sample_of_the_present_near_the_top_left() {
    let renderer = EinkTideRenderer::new();
    let mut buffer = panel();
    renderer.draw_sample(&mut buffer, 3, 2, 5);
    let expected = [
        "rr.....rr...",
        "rrr...rr....",
        ".rrrrrrr....",
        "..rrrrrr....",
        "...rrrrr....",
        "..rrrrrr....",
        ".rrrrrrr....",
        "rr....rrr...",
        "r......r....",
        "............",
        "............",
        "............",
    ];
    assert_eq!(rows(&buffer, 0, 0, 12, 12), expected);
    assert_eq!(digest(&buffer, '#'), (0, 0));
    assert_eq!(digest(&buffer, 'r'), (47, 838739234));
}

#[test]
fn sample_of_the_present_near_the_bottom_right() {
    let renderer = EinkTideRenderer::new();
    let mut buffer = panel();
    renderer.draw_sample(&mut buffer, 397, 296, -5);
    let expected = [
        "............",
        "............",
        "............",
        "............",
        ".....rr.....",
        ".....rrr....",
        "......rrr..r",
        ".......rrrrr",
        "........rrrr",
        "........rrrr",
        ".......rrrrr",
        "......rr.rrr",
    ];
    assert_eq!(rows(&buffer, 388, 288, 12, 12), expected);
    assert_eq!(digest(&buffer, '#'), (0, 0));
    assert_eq!(digest(&buffer, 'r'), (32, 551868785));
}

#[test]
fn sample_of_the_present_at_the_right_edge() {
    let renderer = EinkTideRenderer::new();
    let mut buffer = panel();
    renderer.draw_sample(&mut buffer, 399, 5, 3);
    let expected = [
        "..........",
        ".....rr...",
        ".....rrr..",
        "......rrr.",
        ".......rrr",
        "........rr",
        "........rr",
        ".......rrr",
        "......rr.r",
        "......r..r",
        "..........",
        "..........",
    ];
    assert_eq!(rows(&buffer, 390, 0, 10, 12), expected);
    assert_eq!(digest(&buffer, '#'), (0, 0));
    assert_eq!(digest(&buffer, 'r'), (23, 4740512));
}

#[test]
fn samples_are_drawn_one_after_the_other() {
    let renderer = EinkTideRenderer::new();
    let mut buffer = panel();
    renderer.draw_samples(&mut buffer, &vec![PlotPoint { x: 40, y: 100, mins_rel: -720 }, PlotPoint { x: 41, y: 101, mins_rel: -6 }, PlotPoint { x: 60, y: 90, mins_rel: 6 }, PlotPoint { x: 200, y: 150, mins_rel: 5 }, PlotPoint { x: 398, y: 298, mins_rel: 720 }, PlotPoint { x: 399, y: 299, mins_rel: 100 }]);
    assert_eq!(digest(&buffer, '#'), (15, 506565379));
    assert_eq!(digest(&buffer, 'r'), (51, 588805050));
}

#[test]
fn wave_dots_are_cut_off_at_the_edges_of_the_chart() {
    let renderer = EinkTideRenderer::new();
    let mut buffer = DisplayBuffer::new(500, 400);
    renderer.draw_wave(&mut buffer, &vec![Dot { x: 40, y: 100 }, Dot { x: 376, y: 276 }, Dot { x: 378, y: 278 }, Dot { x: 379, y: 279 }, Dot { x: 380, y: 100 }, Dot { x: 100, y: 280 }, Dot { x: 0, y: 0 }], chart());
    let corner = [
        "........",
        "........",
        "..###...",
        "..###...",
        "..####..",
        "....##..",
        "........",
        "........",
    ];
    assert_eq!(rows(&buffer, 374, 274, 8, 8), corner);
    assert_eq!(digest(&buffer, '#'), (30, 933293718));
    assert_eq!(digest(&buffer, 'r'), (0, 0));
}

#[test]
fn wave_dot_may_lie_beyond_the_panel() {
    let renderer = EinkTideRenderer::new();
    let mut buffer = DisplayBuffer::new(500, 400);
    renderer.draw_wave_dot(&mut buffer, 450, 350, Area { x: 0, y: 0, width: 460, height: 352 });
    let expected = [
        ".....",
        ".###.",
        ".###.",
        ".....",
        ".....",
    ];
    assert_eq!(rows(&buffer, 449, 349, 5, 5), expected);
}

#[test]
fn whole_chart_with_samples() {
    let renderer = EinkTideRenderer::new();
    let mut buffer = panel();
    let curve = Curve::Samples(vec![PlotPoint { x: 35, y: 60, mins_rel: -720 }, PlotPoint { x: 68, y: 97, mins_rel: -576 }, PlotPoint { x: 101, y: 134, mins_rel: -432 }, PlotPoint { x: 134, y: 171, mins_rel: -288 }, PlotPoint { x: 167, y: 208, mins_rel: -144 }, PlotPoint { x: 200, y: 245, mins_rel: 0 }, PlotPoint { x: 233, y: 92, mins_rel: 144 }, PlotPoint { x: 266, y: 129, mins_rel: 288 }, PlotPoint { x: 299, y: 166, mins_rel: 432 }, PlotPoint { x: 332, y: 203, mins_rel: 576 }, PlotPoint { x: 365, y: 240, mins_rel: 720 }]);
    renderer.render_chart(&mut buffer, chart(), &labels(["9", "7", "5", "2", "0"]), &curve);
    assert_eq!(digest(&buffer, '#'), (2003, 568062571));
    assert_eq!(digest(&buffer, 'r'), (51, 407395509));
}

#[test]
fn whole_chart_with_a_wave() {
    let renderer = EinkTideRenderer::new();
    let mut buffer = panel();
    let dots: Vec<Dot> = (0..320u32).map(|i| Dot { x: 40 + i, y: 150 - (i * 13) % 55 }).collect();
    renderer.render_chart(&mut buffer, chart(), &labels(["9", "7", "5", "2", "0"]), &Curve::Wave(dots));
    assert_eq!(digest(&buffer, '#'), (4843, 873297830));
    assert_eq!(digest(&buffer, 'r'), (0, 0));
}

#[test]
fn whole_chart_without_samples_is_axes_and_marker() {
    let renderer = EinkTideRenderer::new();
    let mut whole = panel();
    renderer.render_chart(&mut whole, chart(), &labels(["9", "7", "5", "2", "0"]), &Curve::Samples(vec![]));
    let mut parts = panel();
    renderer.draw_axes(&mut parts, chart(), &labels(["9", "7", "5", "2", "0"]));
    renderer.draw_center_marker(&mut parts, chart());
    assert_eq!(whole.black_buffer(), parts.black_buffer());
    assert_eq!(whole.red_buffer(), parts.red_buffer());
}

#[test]
fn chart_area_is_the_panel_without_the_margin() {
    let renderer = EinkTideRenderer::new();
    assert_eq!(renderer.chart_area(), Some(chart()));
    assert_eq!(chart().plot(), Some(Area { x: 35, y: 35, width: 330, height: 230 }));
    assert_eq!(PLOT_MARGIN, 15);
    assert_eq!(TICKS, 5);
}

#[test]
fn inset_needs_room_on_every_side() {
    let a = Area { x: 10, y: 20, width: 30, height: 40 };
    assert_eq!(a.inset(0), Some(a));
    assert_eq!(a.inset(15), Some(Area { x: 25, y: 35, width: 0, height: 10 }));
    assert_eq!(a.inset(16), None);
    assert_eq!(Area { x: 10, y: 20, width: 40, height: 30 }.inset(16), None);
    assert_eq!(a.inset(u32::MAX), None);
    assert_eq!(a.inset(0x8000_0000), None);
    let far = Area { x: u32::MAX - 3, y: 0, width: 100, height: 100 };
    assert_eq!(far.inset(3), Some(Area { x: u32::MAX, y: 3, width: 94, height: 94 }));
    assert_eq!(far.inset(4), None);
    let low = Area { x: 0, y: u32::MAX - 3, width: 100, height: 100 };
    assert_eq!(low.inset(4), None);
}

#[test]
fn the_present_is_within_five_minutes() {
    assert!(is_now(0));
    assert!(is_now(5));
    assert!(is_now(-5));
    assert!(!is_now(6));
    assert!(!is_now(-6));
    assert!(!is_now(i16::MIN));
    assert!(!is_now(i16::MAX));
}

#[test]
fn line_draws_a_flat_line() {
    let renderer = EinkTideRenderer::new();
    let mut buffer = panel();
    renderer.draw_line(&mut buffer, 3, 5, 12, 5);
    let expected = [
        "............",
        ".##########.",
        "............",
    ];
    assert_eq!(rows(&buffer, 2, 4, 12, 3), expected);
    assert_eq!(digest(&buffer, '#').0, 10);
}

#[test]
fn line_draws_a_gentle_line_down() {
    let renderer = EinkTideRenderer::new();
    let mut buffer = panel();
    renderer.draw_line(&mut buffer, 2, 2, 14, 7);
    let expected = [
        "...............",
        ".##............",
        "...##..........",
        ".....###.......",
        "........##.....",
        "..........##...",
        "............##.",
        "...............",
    ];
    assert_eq!(rows(&buffer, 1, 1, 15, 8), expected);
    assert_eq!(digest(&buffer, '#').0, 13);
}

#[test]
fn line_draws_a_gentle_line_up_to_the_left() {
    let renderer = EinkTideRenderer::new();
    let mut buffer = panel();
    renderer.draw_line(&mut buffer, 20, 3, 5, 9);
    let expected = [
        "..................",
        "...............##.",
        ".............##...",
        "..........###.....",
        "........##........",
        ".....###..........",
        "...##.............",
        ".##...............",
        "..................",
    ];
    assert_eq!(rows(&buffer, 4, 2, 18, 9), expected);
    assert_eq!(digest(&buffer, '#').0, 16);
}

#[test]
fn line_draws_a_diagonal_line() {
    let renderer = EinkTideRenderer::new();
    let mut buffer = panel();
    renderer.draw_line(&mut buffer, 4, 4, 10, 10);
    let expected = [
        ".........",
        ".#.......",
        "..#......",
        "...#.....",
        "....#....",
        ".....#...",
        "......#..",
        ".......#.",
        ".........",
    ];
    assert_eq!(rows(&buffer, 3, 3, 9, 9), expected);
    assert_eq!(digest(&buffer, '#').0, 7);
}

#[test]
fn line_draws_a_single_pixel() {
    let renderer = EinkTideRenderer::new();
    let mut buffer = panel();
    renderer.draw_line(&mut buffer, 7, 7, 7, 7);
    let expected = [
        "...",
        ".#.",
        "...",
    ];
    assert_eq!(rows(&buffer, 6, 6, 3, 3), expected);
    assert_eq!(digest(&buffer, '#').0, 1);
}

#[test]
fn line_draws_a_line_of_slope_one_half() {
    let renderer = EinkTideRenderer::new();
    let mut buffer = panel();
    renderer.draw_line(&mut buffer, 0, 0, 9, 4);
    let expected = [
        "##.........",
        "..##.......",
        "....##.....",
        "......##...",
        "........##.",
        "...........",
    ];
    assert_eq!(rows(&buffer, 0, 0, 11, 6), expected);
    assert_eq!(digest(&buffer, '#').0, 10);
}

#[test]
fn line_draws_a_steep_line_with_rows_and_columns_exchanged() {
    let renderer = EinkTideRenderer::new();
    let mut buffer = panel();
    renderer.draw_line(&mut buffer, 10, 2, 12, 9);
    let expected = [
        "............",
        "............",
        "..##........",
        "....####....",
        "........##..",
        "............",
    ];
    assert_eq!(rows(&buffer, 0, 8, 12, 6), expected);
    assert_eq!(digest(&buffer, '#').0, 8);
}

#[test]
fn line_draws_a_vertical_line_with_rows_and_columns_exchanged() {
    let renderer = EinkTideRenderer::new();
    let mut buffer = panel();
    renderer.draw_line(&mut buffer, 5, 0, 5, 8);
    let expected = [
        "..........",
        "#########.",
        "..........",
    ];
    assert_eq!(rows(&buffer, 0, 4, 10, 3), expected);
    assert_eq!(digest(&buffer, '#').0, 9);
}

#[test]
fn line_draws_long_lines() {
    let renderer = EinkTideRenderer::new();
    let mut buffer = panel();
    renderer.draw_line(&mut buffer, 0, 0, 399, 299);
    renderer.draw_line(&mut buffer, 399, 0, 0, 299);
    renderer.draw_line(&mut buffer, 0, 299, 399, 150);
    renderer.draw_line(&mut buffer, 17, 250, 380, 3);
    renderer.draw_line(&mut buffer, 399, 299, 0, 0);
    assert_eq!(digest(&buffer, '#'), (1561, 370652137));
    assert_eq!(digest(&buffer, 'r'), (0, 0));
}

#[test]
fn line_draws_steep_lines() {
    let renderer = EinkTideRenderer::new();
    let mut buffer = panel();
    renderer.draw_line(&mut buffer, 10, 0, 40, 299);
    renderer.draw_line(&mut buffer, 390, 299, 300, 0);
    renderer.draw_line(&mut buffer, 0, 0, 0, 299);
    renderer.draw_line(&mut buffer, 200, 10, 250, 290);
    assert_eq!(digest(&buffer, '#'), (881, 263899432));
    assert_eq!(digest(&buffer, 'r'), (0, 0));
}

#[test]
fn line_with_an_end_outside_the_panel_is_not_drawn() {
    let renderer = EinkTideRenderer::new();
    let mut buffer = DisplayBuffer::new(500, 400);
    renderer.draw_line(&mut buffer, 0, 0, 400, 10);
    renderer.draw_line(&mut buffer, 400, 0, 10, 10);
    renderer.draw_line(&mut buffer, 0, 300, 10, 10);
    renderer.draw_line(&mut buffer, 0, 0, 10, 300);
    renderer.draw_line(&mut buffer, u32::MAX, 0, 0, u32::MAX);
    assert_eq!(digest(&buffer, '#').0, 0);
    renderer.draw_line(&mut buffer, 399, 299, 390, 299);
    assert_eq!(digest(&buffer, '#').0, 10);
}

#[test]
fn line_is_the_same_from_either_end_where_it_is_flat() {
    let renderer = EinkTideRenderer::new();
    let mut there = panel();
    renderer.draw_line(&mut there, 10, 20, 300, 20);
    let mut back = panel();
    renderer.draw_line(&mut back, 300, 20, 10, 20);
    assert_eq!(there.black_buffer(), back.black_buffer());
    assert_eq!(digest(&there, '#').0, 291);
}
