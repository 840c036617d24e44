use tide_clock_lib::eink_renderer::glyphs::{extra_large_stroke_list, large_stroke_list, simple_stroke_list, bar};
use tide_clock_lib::eink_renderer::{EinkTideRenderer, Font};
use tide_clock_lib::epd4in2b_v2::{Color, DisplayBuffer};

fn is_black(buffer: &DisplayBuffer, x: u32, y: u32) -> bool {
    let bytes_per_row = (buffer.width() as usize + 7) / 8;
    let i = y as usize * bytes_per_row + x as usize / 8;
    let mask = 0x80u8 >> (x % 8);
    assert_eq!(buffer.red_buffer()[i] & mask, 0);
    buffer.black_buffer()[i] & mask == 0
}

/// The part of the buffer from `(x0, y0)`, `w` columns wide and `h` rows
/// high, one string for each row.
fn rows(buffer: &DisplayBuffer, x0: u32, y0: u32, w: u32, h: u32) -> Vec<String> {
    (y0..y0 + h)
        .map(|y| (x0..x0 + w).map(|x| if is_black(buffer, x, y) { '#' } else { '.' }).collect())
        .collect()
}

fn count_black(buffer: &DisplayBuffer) -> usize {
    buffer.black_buffer().iter().map(|b| b.count_zeros() as usize).sum()
}

fn panel() -> DisplayBuffer {
    DisplayBuffer::new(400, 300)
}

#[test]
fn simple_text_draws_every_known_character() {
    let renderer = EinkTideRenderer::new();
    let mut buffer = panel();
    renderer.draw_simple_text(&mut buffer, 3, 2, "-12hNnow+");
    let expected = [
        "........#...####..#.....#..#..#..#........#...#.......",
        "........#.........#.....##.#..##.#........#...#...#...",
        "........#.........#.....#.##..#.##..#####.#...#...#...",
        "####....#......#..####..#..#..#..#..#...#.#...#..###..",
        "........#.........#.....#..#..#..#..#...#.#...#...#...",
        "........#.........#.....#..#..#..#..#####.#.#.#...#...",
        "........#...####..#.....#..#..#..#........#.#.#.......",
    ];
    assert_eq!(rows(&buffer, 3, 2, 54, 7), expected);
    assert_eq!(count_black(&buffer), 99);
}

#[test]
fn simple_text_draws_a_block_for_an_unknown_character() {
    let renderer = EinkTideRenderer::new();
    let mut buffer = panel();
    renderer.draw_simple_text(&mut buffer, 0, 0, "?x");
    let expected = [
        "###...###...",
        "###...###...",
        "###...###...",
        "###...###...",
        "###...###...",
        "............",
        "............",
    ];
    assert_eq!(rows(&buffer, 0, 0, 12, 7), expected);
    assert_eq!(count_black(&buffer), 30);
}

#[test]
fn simple_text_draws_the_axis_words() {
    let renderer = EinkTideRenderer::new();
    let mut buffer = panel();
    renderer.draw_simple_text(&mut buffer, 5, 50, "HiMidLo");
    let expected = [
        "###...###...###...###...###...###.........",
        "###...###...###...###...###...###.........",
        "###...###...###...###...###...###...#####.",
        "###...###...###...###...###...###...#...#.",
        "###...###...###...###...###...###...#...#.",
        "....................................#####.",
        "..........................................",
    ];
    assert_eq!(rows(&buffer, 5, 50, 42, 7), expected);
    assert_eq!(count_black(&buffer), 104);
}

#[test]
fn large_text_draws_letters_and_signs() {
    let renderer = EinkTideRenderer::new();
    let mut buffer = panel();
    renderer.draw_large_text(&mut buffer, 10, 20, "-12hNnow+AMP");
    let expected = [
        ".............##......######...##........##...##...##...##..................................#....#....#....#....######...",
        "...........####......######...##........##...##...##...##..................................#....#....##..##....#....#...",
        ".............##..........##...##........##...##...##...##..........................##......#....#....#.##.#....#....#...",
        ".............##..........##...##........###..##...###..##...#######...##....##.....##......#....#....#.##.#....#....#...",
        ".............##..........##...##........###..##...###..##...#######...##....##.....##......#....#....##..##....#....#...",
        ".######......##......######...######....##.#.##...##.#.##...##...##...##....##....####.....######....#....#....######...",
        ".######......##......######...######....##.#.##...##.#.##...##...##...##....##....####.....#....#....#....#....#........",
        ".............##...............##..##....##..###...##..###...##...##...##....##.....##......#....#....#....#....#........",
        ".............##...............##..##....##..###...##..###...#######...########.....##......#....#....#....#....#........",
        ".............##...............##..##....##...##...##...##...#######...########.....##......#....#....#....#....#........",
        ".............##......######...##..##....##...##...##...##.............########.............#....#....#....#....#........",
        ".............##......######...##..##....##...##...##...##.............########.............#....#....#....#....#........",
    ];
    assert_eq!(rows(&buffer, 10, 20, 120, 12), expected);
    assert_eq!(count_black(&buffer), 428);
}

#[test]
fn large_text_draws_digits_and_marks() {
    let renderer = EinkTideRenderer::new();
    let mut buffer = panel();
    renderer.draw_large_text(&mut buffer, 10, 20, "03456789/: ?");
    let expected = [
        ".######....######....#....#....######....######....######....######....######.........#.......................######....",
        ".#....#.........#....#....#....#.........#..............#....#....#.........#.........#.......................######....",
        ".#....#.........#....#....#....#.........#..............#....#....#.........#........#........................######....",
        ".#....#.........#....#....#....#.........#..............#....#....#.........#........#.......##...............######....",
        ".#....#.........#....#....#....#.........#..............#....#....#.........#.......#........##...............######....",
        ".#....#....######....######....######....######.........#....######....######.......#.........................######....",
        ".#....#.........#.........#.........#....#....#.........#....#....#....#....#......#..........................######....",
        ".#....#.........#.........#.........#....#....#.........#....#....#....#....#......#.........##...............######....",
        ".#....#.........#.........#.........#....#....#.........#....#....#....#....#.....#..........##.........................",
        ".#....#.........#.........#.........#....#....#.........#....#....#....#....#.....#.....................................",
        ".#....#.........#.........#.........#....#....#.........#....#....#....#....#....#......................................",
        ".######....######.........#....######....######.........#....######....######....#......................................",
    ];
    assert_eq!(rows(&buffer, 10, 20, 120, 12), expected);
    assert_eq!(count_black(&buffer), 293);
}

#[test]
fn large_text_draws_the_time_labels() {
    let renderer = EinkTideRenderer::new();
    let mut buffer = panel();
    renderer.draw_large_text(&mut buffer, 325, 275, "+12h");
    let expected = [
        ".............##......######...##........",
        "...........####......######...##........",
        "...##........##..........##...##........",
        "...##........##..........##...##........",
        "...##........##..........##...##........",
        "..####.......##......######...######....",
        "..####.......##......######...######....",
        "...##........##...............##..##....",
        "...##........##...............##..##....",
        "...##........##...............##..##....",
        ".............##......######...##..##....",
        ".............##......######...##..##....",
    ];
    assert_eq!(rows(&buffer, 325, 275, 40, 12), expected);
    assert_eq!(count_black(&buffer), 130);
}

#[test]
fn extra_large_text_draws_its_own_characters() {
    let renderer = EinkTideRenderer::new();
    let mut buffer = panel();
    renderer.draw_extra_large_text(&mut buffer, 4, 6, "-0123456");
    let expected = [
        "...........................................##...................................................................................................",
        "...........................................##...................................................................................................",
        "....................############......#######...........############......############......#..........#......############......############....",
        "....................#..........#...........##......................#.................#......#..........#......#.................#...............",
        "....................#..........#...........##......................#.................#......#..........#......#.................#...............",
        "....................#..........#...........##......................#.................#......#..........#......#.................#...............",
        "....................#..........#...........##......................#.................#......#..........#......#.................#...............",
        "....................#..........#...........##......................#.................#......#..........#......#.................#...............",
        "....................#..........#...........##......................#.................#......#..........#......#.................#...............",
        "....................#..........#...........##......................#.................#......#..........#......#.................#...............",
        "..############......#..........#...........##......................#.................#......#..........#......#.................#...............",
        "..############......#..........#...........##......................#.................#......#..........#......#.................#...............",
        "..############......#..........#...........##...........############......############......############......############......############....",
        "..############......#..........#...........##...........#............................#.................#.................#.................#....",
        "....................#..........#...........##...........#............................#.................#.................#.................#....",
        "....................#..........#...........##...........#............................#.................#.................#.................#....",
        "....................#..........#...........##...........#............................#.................#.................#.................#....",
        "....................#..........#...........##...........#............................#.................#.................#.................#....",
        "....................#..........#...........##...........#............................#.................#.................#.................#....",
        "....................#..........#...........##...........#............................#.................#.................#.................#....",
        "....................#..........#...........##...........#............................#.................#.................#.................#....",
        "....................############...........##...........############......############........................############......############....",
        "...........................................##...................................................................................................",
        "...........................................##...................................................................................................",
    ];
    assert_eq!(rows(&buffer, 4, 6, 144, 24), expected);
    assert_eq!(count_black(&buffer), 413);
}

#[test]
fn extra_large_text_falls_back_to_the_large_font() {
    let renderer = EinkTideRenderer::new();
    let mut buffer = panel();
    renderer.draw_extra_large_text(&mut buffer, 4, 6, "7A:x 9");
    let expected = [
        "............................................................................................................",
        "............................................................................................................",
        "............................................................................................................",
        "............................................................................................................",
        "............................................................................................................",
        "............................................................................................................",
        ".######............#....#.............................######...............................######...........",
        "......#............#....#.............................######....................................#...........",
        "......#............#....#.............................######....................................#...........",
        "......#............#....#..............##.............######....................................#...........",
        "......#............#....#..............##.............######....................................#...........",
        "......#............######.............................######...............................######...........",
        "......#............#....#.............................######...............................#....#...........",
        "......#............#....#..............##.............######...............................#....#...........",
        "......#............#....#..............##..................................................#....#...........",
        "......#............#....#..................................................................#....#...........",
        "......#............#....#..................................................................#....#...........",
        "......#............#....#..................................................................######...........",
        "............................................................................................................",
        "............................................................................................................",
        "............................................................................................................",
        "............................................................................................................",
        "............................................................................................................",
        "............................................................................................................",
    ];
    assert_eq!(rows(&buffer, 4, 6, 108, 24), expected);
    assert_eq!(count_black(&buffer), 133);
}

#[test]
fn text_is_cut_off_at_the_right_edge() {
    let renderer = EinkTideRenderer::new();
    let mut buffer = panel();
    renderer.draw_large_text(&mut buffer, 385, 100, "N2M");
    let expected = [
        ".....##...##....####",
        ".....##...##....####",
        ".....##...##........",
        ".....###..##........",
        ".....###..##........",
        ".....##.#.##....####",
        ".....##.#.##....####",
        ".....##..###........",
        ".....##..###........",
        ".....##...##........",
        ".....##...##....####",
        ".....##...##....####",
    ];
    assert_eq!(rows(&buffer, 380, 100, 20, 12), expected);
    assert_eq!(count_black(&buffer), 78);
}

#[test]
fn text_is_cut_off_at_the_bottom_edge() {
    let renderer = EinkTideRenderer::new();
    let mut buffer = panel();
    renderer.draw_large_text(&mut buffer, 100, 293, "h8");
    let expected = [
        "....................",
        "....................",
        "....................",
        "##.........######...",
        "##.........#....#...",
        "##.........#....#...",
        "##.........#....#...",
        "##.........#....#...",
        "######.....######...",
        "######.....#....#...",
    ];
    assert_eq!(rows(&buffer, 100, 290, 20, 10), expected);
    assert_eq!(count_black(&buffer), 44);
}

#[test]
fn text_is_cut_off_at_the_corner() {
    let renderer = EinkTideRenderer::new();
    let mut buffer = panel();
    renderer.draw_extra_large_text(&mut buffer, 380, 285, "25");
    let expected = [
        "........................",
        "........................",
        "........................",
        "........................",
        "........................",
        "........................",
        "........................",
        "......############......",
        ".................#......",
        ".................#......",
        ".................#......",
        ".................#......",
        ".................#......",
        ".................#......",
        ".................#......",
        ".................#......",
        ".................#......",
        "......############......",
        "......#.................",
        "......#.................",
    ];
    assert_eq!(rows(&buffer, 376, 280, 24, 20), expected);
    assert_eq!(count_black(&buffer), 35);
}

#[test]
fn text_on_a_small_buffer_is_cut_off_by_the_buffer() {
    let renderer = EinkTideRenderer::new();
    let mut buffer = DisplayBuffer::new(16, 10);
    renderer.draw_large_text(&mut buffer, 2, 3, "AM");
    let expected = [
        "................",
        "................",
        "................",
        "...#....#....#..",
        "...#....#....##.",
        "...#....#....#.#",
        "...#....#....#.#",
        "...#....#....##.",
        "...######....#..",
        "...#....#....#..",
    ];
    assert_eq!(rows(&buffer, 0, 0, 16, 10), expected);
    assert_eq!(count_black(&buffer), 29);
}

#[test]
fn simple_text_is_cut_off_at_the_edges() {
    let renderer = EinkTideRenderer::new();
    let mut buffer = panel();
    renderer.draw_simple_text(&mut buffer, 390, 296, "o+h");
    let expected = [
        "............",
        "............",
        "............",
        "..........#.",
        "..#####...#.",
        "..#...#..###",
    ];
    assert_eq!(rows(&buffer, 388, 294, 12, 6), expected);
    assert_eq!(count_black(&buffer), 12);
}

#[test]
fn text_beyond_the_panel_draws_nothing() {
    let renderer = EinkTideRenderer::new();
    let mut buffer = panel();
    renderer.draw_large_text(&mut buffer, 400, 10, "Now");
    renderer.draw_large_text(&mut buffer, 10, 300, "Now");
    renderer.draw_simple_text(&mut buffer, u32::MAX, u32::MAX, "Now");
    renderer.draw_extra_large_text(&mut buffer, u32::MAX - 3, 0, "123456");
    renderer.draw_extra_large_text(&mut buffer, 0, u32::MAX - 3, "x");
    assert_eq!(count_black(&buffer), 0);
}

#[test]
fn text_is_cut_off_at_the_renderer_size_on_a_larger_buffer() {
    let renderer = EinkTideRenderer::new();
    let mut buffer = DisplayBuffer::new(500, 400);
    renderer.draw_large_text(&mut buffer, 396, 296, "8");
    let expected = [
        "......",
        "......",
        "...###",
        "...#..",
        "...#..",
        "...#..",
        "......",
        "......",
    ];
    assert_eq!(rows(&buffer, 394, 294, 6, 8), expected);
    assert_eq!(count_black(&buffer), 6);
}

#[test]
fn empty_text_draws_nothing() {
    let renderer = EinkTideRenderer::new();
    let mut buffer = panel();
    renderer.draw_simple_text(&mut buffer, 10, 10, "");
    renderer.draw_large_text(&mut buffer, 10, 10, "");
    renderer.draw_extra_large_text(&mut buffer, 10, 10, "");
    renderer.draw_large_text(&mut buffer, 10, 10, "   ");
    assert_eq!(count_black(&buffer), 0);
}

#[test]
fn text_is_drawn_in_black_over_any_colour() {
    let renderer = EinkTideRenderer::new();
    let mut buffer = panel();
    buffer.clear(Color::Red);
    renderer.draw_simple_text(&mut buffer, 0, 0, "-");
    assert_eq!(&buffer.black_buffer()[150..152], &[0x0F, 0xFF]);
    assert_eq!(&buffer.red_buffer()[150..152], &[0x0F, 0xFF]);
    assert_eq!(buffer.black_buffer()[0], 0xFF);
}

#[test]
fn draw_text_is_the_drawing_of_each_font() {
    let renderer = EinkTideRenderer::new();
    for (font, advance) in [(Font::Simple, 6), (Font::Large, 10), (Font::ExtraLarge, 18)] {
        assert_eq!(font.advance(), advance);
        let mut a = panel();
        renderer.draw_text(&mut a, font, 7, 9, "+12h Now");
        let mut b = panel();
        match font {
            Font::Simple => renderer.draw_simple_text(&mut b, 7, 9, "+12h Now"),
            Font::Large => renderer.draw_large_text(&mut b, 7, 9, "+12h Now"),
            Font::ExtraLarge => renderer.draw_extra_large_text(&mut b, 7, 9, "+12h Now"),
        }
        assert_eq!(a.black_buffer(), b.black_buffer());
        assert_eq!(a.red_buffer(), b.red_buffer());
    }
}

#[test]
fn characters_follow_one_another_by_the_advance() {
    let renderer = EinkTideRenderer::new();
    let mut whole = panel();
    renderer.draw_large_text(&mut whole, 30, 40, "4/5");
    let mut parts = panel();
    renderer.draw_large_text(&mut parts, 50, 40, "5");
    renderer.draw_large_text(&mut parts, 30, 40, "4");
    renderer.draw_large_text(&mut parts, 40, 40, "/");
    assert_eq!(whole.black_buffer(), parts.black_buffer());
}

#[test]
fn stroke_lists_hold_the_strokes_of_the_fonts() {
    assert_eq!(simple_stroke_list('-'), vec![bar(0, 3, 4, 4)]);
    assert_eq!(simple_stroke_list('n'), simple_stroke_list('N'));
    assert_eq!(simple_stroke_list('%'), vec![bar(0, 0, 3, 5)]);
    assert_eq!(large_stroke_list('1'), vec![bar(3, 0, 5, 12), bar(1, 1, 4, 2)]);
    assert_eq!(large_stroke_list(' '), vec![]);
    assert_eq!(large_stroke_list('%'), vec![bar(0, 0, 6, 8)]);
    assert_eq!(extra_large_stroke_list('-'), Some(vec![bar(2, 10, 14, 14)]));
    assert_eq!(extra_large_stroke_list('7'), None);
    assert_eq!(Font::ExtraLarge.glyph_strokes('7'), (large_stroke_list('7'), 6));
    assert_eq!(Font::ExtraLarge.glyph_strokes('1'), (extra_large_stroke_list('1').unwrap(), 0));
    assert_eq!(Font::Large.glyph_strokes('h').1, 0);
}

#[test]
fn renderer_has_the_size_of_the_panel() {
    let renderer = EinkTideRenderer::new();
    assert_eq!(renderer.width(), 400);
    assert_eq!(renderer.height(), 300);
    assert_eq!(renderer.margin(), 20);
}
