use super::color::Color;
use vstd::prelude::*;

verus! {

/// Bytes that hold one row of `width` pixels, eight pixels to a byte.
pub open spec fn bytes_per_row(width: nat) -> nat {
    (width + 7) / 8
}

/// The bit of a plane byte that belongs to column `x`: the leftmost of the
/// eight pixels of a byte is its most significant bit.
pub open spec fn pixel_mask(x: nat) -> u8 {
    0x80u8 >> ((x % 8) as u8)
}

/// Whether the bit of column `x` is set in `byte`.
pub open spec fn bit_of(byte: u8, x: nat) -> bool {
    byte & pixel_mask(x) != 0
}

/// `byte` with the bit of column `x` set or cleared.
pub open spec fn put_bit(byte: u8, x: nat, on: bool) -> u8 {
    if on {
        byte | pixel_mask(x)
    } else {
        byte & !pixel_mask(x)
    }
}

/// The byte that shows eight pixels with the same bit.
pub open spec fn solid_byte(on: bool) -> u8 {
    if on {
        0xFFu8
    } else {
        0x00u8
    }
}

/// One `set_pixel` request.
pub struct PixelWrite {
    pub x: nat,
    pub y: nat,
    pub color: Color,
}

/// What a frame buffer holds: its size and the bytes of its two planes.
pub struct FrameView {
    pub width: nat,
    pub height: nat,
    pub black: Seq<u8>,
    pub red: Seq<u8>,
}

impl FrameView {
    /// Length of each plane in bytes.
    pub open spec fn plane_len(self) -> nat {
        bytes_per_row(self.width) * self.height
    }

    /// Whether `(x, y)` is a pixel of the frame.
    pub open spec fn contains(self, x: nat, y: nat) -> bool {
        x < self.width && y < self.height
    }

    /// Index of the plane byte that holds pixel `(x, y)`.
    pub open spec fn byte_index(self, x: nat, y: nat) -> int {
        (y * bytes_per_row(self.width) + x / 8) as int
    }

    /// Both planes have the length the size calls for, and no bit position
    /// holds the pair (black 0, red 1), which stands for no colour.
    pub open spec fn wf(self) -> bool {
        &&& self.black.len() == self.plane_len()
        &&& self.red.len() == self.plane_len()
        &&& forall|i: int|
            0 <= i < self.plane_len() ==> #[trigger] self.red[i] & !self.black[i] == 0
    }

    /// The black-plane bit of pixel `(x, y)`.
    pub open spec fn black_bit(self, x: nat, y: nat) -> bool {
        bit_of(self.black[self.byte_index(x, y)], x)
    }

    /// The red-plane bit of pixel `(x, y)`.
    pub open spec fn red_bit(self, x: nat, y: nat) -> bool {
        bit_of(self.red[self.byte_index(x, y)], x)
    }

    /// The colour of pixel `(x, y)`.
    pub open spec fn color_at(self, x: nat, y: nat) -> Color {
        Color::from_bits(self.black_bit(x, y), self.red_bit(x, y))
    }

    /// The frame of the given size in which every pixel has `color`.
    pub open spec fn filled(width: nat, height: nat, color: Color) -> FrameView {
        FrameView {
            width,
            height,
            black: Seq::new(
                bytes_per_row(width) * height,
                |i: int| solid_byte(color.black_bit()),
            ),
            red: Seq::new(bytes_per_row(width) * height, |i: int| solid_byte(color.red_bit())),
        }
    }

    /// The frame after pixel `(x, y)` is set to `color`; the frame itself
    /// when `(x, y)` lies outside it.
    pub open spec fn paint(self, x: nat, y: nat, color: Color) -> FrameView {
        if self.contains(x, y) {
            let i = self.byte_index(x, y);
            FrameView {
                black: self.black.update(i, put_bit(self.black[i], x, color.black_bit())),
                red: self.red.update(i, put_bit(self.red[i], x, color.red_bit())),
                ..self
            }
        } else {
            self
        }
    }

    /// The frame after the requests of `writes` are applied in order.
    pub open spec fn paint_all(self, writes: Seq<PixelWrite>) -> FrameView
        decreases writes.len(),
    {
        if writes.len() == 0 {
            self
        } else {
            let w = writes.last();
            self.paint_all(writes.drop_last()).paint(w.x, w.y, w.color)
        }
    }
}

/// The colour of the latest request in `writes` that names pixel `(x, y)`.
pub open spec fn last_write_to(writes: Seq<PixelWrite>, x: nat, y: nat) -> Option<Color>
    decreases writes.len(),
{
    if writes.len() == 0 {
        None
    } else if writes.last().x == x && writes.last().y == y {
        Some(writes.last().color)
    } else {
        last_write_to(writes.drop_last(), x, y)
    }
}

proof fn lemma_mask_bits(b: u8, j: u8, k: u8)
    by (bit_vector)
    requires
        j < 8,
        k < 8,
    ensures
        (b | (0x80u8 >> k)) & (0x80u8 >> k) != 0,
        (b & !(0x80u8 >> k)) & (0x80u8 >> k) == 0,
        j != k ==> (b | (0x80u8 >> k)) & (0x80u8 >> j) == b & (0x80u8 >> j),
        j != k ==> (b & !(0x80u8 >> k)) & (0x80u8 >> j) == b & (0x80u8 >> j),
{
}

proof fn lemma_pair_kept(b: u8, r: u8, k: u8, black_on: bool, red_on: bool)
    by (bit_vector)
    requires
        k < 8,
        r & !b == 0,
        !(red_on && !black_on),
    ensures
        (if red_on {
            r | (0x80u8 >> k)
        } else {
            r & !(0x80u8 >> k)
        }) & !(if black_on {
            b | (0x80u8 >> k)
        } else {
            b & !(0x80u8 >> k)
        }) == 0,
{
}

proof fn lemma_solid_bits(k: u8)
    by (bit_vector)
    requires
        k < 8,
    ensures
        0xFFu8 & (0x80u8 >> k) != 0,
        0x00u8 & (0x80u8 >> k) == 0,
        0x00u8 & !0xFFu8 == 0,
        0x00u8 & !0x00u8 == 0,
        0xFFu8 & !0xFFu8 == 0,
{
}

/// Setting a bit makes it read as set, clearing it makes it read as clear,
/// and the bits of the other columns of the byte stay as they were.
pub proof fn lemma_put_bit(byte: u8, x: nat, on: bool, other: nat)
    ensures
        bit_of(put_bit(byte, x, on), x) == on,
        other % 8 != x % 8 ==> bit_of(put_bit(byte, x, on), other) == bit_of(byte, other),
{
    lemma_mask_bits(byte, (other % 8) as u8, (x % 8) as u8);
}

/// A pixel of the frame lies in a byte of the planes.
pub proof fn lemma_byte_index_in_range(v: FrameView, x: nat, y: nat)
    requires
        v.contains(x, y),
    ensures
        0 <= v.byte_index(x, y) < v.plane_len(),
{
    let n = bytes_per_row(v.width) as int;
    assert(x / 8 < n);
    assert(y * n + n <= v.height * n) by (nonlinear_arith)
        requires
            y < v.height,
            n >= 0,
    ;
    assert(0 <= y * n) by (nonlinear_arith)
        requires
            n >= 0,
    ;
}

/// Two pixels of the frame share a plane byte only when they lie in the
/// same row and the same group of eight columns.
pub proof fn lemma_byte_index_distinct(v: FrameView, x1: nat, y1: nat, x2: nat, y2: nat)
    requires
        v.contains(x1, y1),
        v.contains(x2, y2),
        v.byte_index(x1, y1) == v.byte_index(x2, y2),
    ensures
        y1 == y2,
        x1 / 8 == x2 / 8,
{
    let n = bytes_per_row(v.width) as int;
    let a = (x1 / 8) as int;
    let b = (x2 / 8) as int;
    assert(0 <= a < n && 0 <= b < n);
    assert(y1 == y2 && a == b) by (nonlinear_arith)
        requires
            0 <= a < n,
            0 <= b < n,
            y1 * n + a == y2 * n + b,
    ;
}

impl FrameView {
    /// A filled frame is well formed and shows the fill colour everywhere.
    pub proof fn lemma_filled(width: nat, height: nat, color: Color)
        ensures
            FrameView::filled(width, height, color).wf(),
            forall|x: nat, y: nat|
                x < width && y < height ==> #[trigger] FrameView::filled(
                    width,
                    height,
                    color,
                ).color_at(x, y) == color,
    {
        let v = FrameView::filled(width, height, color);
        lemma_solid_bits(0);
        assert forall|x: nat, y: nat| x < width && y < height implies #[trigger] v.color_at(x, y)
            == color by {
            lemma_byte_index_in_range(v, x, y);
            lemma_solid_bits((x % 8) as u8);
        }
    }

    /// Painting keeps a frame well formed and its size unchanged.
    pub proof fn lemma_paint_wf(self, x: nat, y: nat, color: Color)
        requires
            self.wf(),
        ensures
            self.paint(x, y, color).wf(),
            self.paint(x, y, color).width == self.width,
            self.paint(x, y, color).height == self.height,
    {
        if self.contains(x, y) {
            lemma_byte_index_in_range(self, x, y);
            let i = self.byte_index(x, y);
            let p = self.paint(x, y, color);
            assert(self.red[i] & !self.black[i] == 0);
            lemma_pair_kept(
                self.black[i],
                self.red[i],
                (x % 8) as u8,
                color.black_bit(),
                color.red_bit(),
            );
            assert forall|j: int| 0 <= j < p.plane_len() implies #[trigger] p.red[j] & !p.black[j]
                == 0 by {
                if j != i {
                    assert(self.red[j] & !self.black[j] == 0);
                }
            }
        }
    }

    /// A painted pixel reads back with the bits of its colour.
    pub proof fn lemma_paint_sets(self, x: nat, y: nat, color: Color)
        requires
            self.wf(),
            self.contains(x, y),
        ensures
            self.paint(x, y, color).black_bit(x, y) == color.black_bit(),
            self.paint(x, y, color).red_bit(x, y) == color.red_bit(),
            self.paint(x, y, color).color_at(x, y) == color,
    {
        lemma_byte_index_in_range(self, x, y);
        let i = self.byte_index(x, y);
        lemma_put_bit(self.black[i], x, color.black_bit(), x);
        lemma_put_bit(self.red[i], x, color.red_bit(), x);
    }

    /// Painting one pixel leaves every other pixel as it was.
    pub proof fn lemma_paint_keeps_others(self, x: nat, y: nat, color: Color, ox: nat, oy: nat)
        requires
            self.wf(),
            self.contains(ox, oy),
            ox != x || oy != y,
        ensures
            self.paint(x, y, color).black_bit(ox, oy) == self.black_bit(ox, oy),
            self.paint(x, y, color).red_bit(ox, oy) == self.red_bit(ox, oy),
            self.paint(x, y, color).color_at(ox, oy) == self.color_at(ox, oy),
    {
        if self.contains(x, y) {
            lemma_byte_index_in_range(self, x, y);
            lemma_byte_index_in_range(self, ox, oy);
            let i = self.byte_index(x, y);
            if self.byte_index(ox, oy) == i {
                lemma_byte_index_distinct(self, x, y, ox, oy);
                assert(ox % 8 != x % 8);
                lemma_put_bit(self.black[i], x, color.black_bit(), ox);
                lemma_put_bit(self.red[i], x, color.red_bit(), ox);
            }
        }
    }

    /// A request outside the frame changes nothing.
    pub proof fn lemma_paint_outside(self, x: nat, y: nat, color: Color)
        requires
            !self.contains(x, y),
        ensures
            self.paint(x, y, color) == self,
    {
    }

    /// Painting a pixel twice with the same colour is painting it once.
    pub proof fn lemma_paint_idempotent(self, x: nat, y: nat, color: Color)
        requires
            self.wf(),
        ensures
            self.paint(x, y, color).paint(x, y, color) == self.paint(x, y, color),
    {
        if self.contains(x, y) {
            lemma_byte_index_in_range(self, x, y);
            let i = self.byte_index(x, y);
            let k = (x % 8) as u8;
            let b = self.black[i];
            let r = self.red[i];
            assert((b | (0x80u8 >> k)) | (0x80u8 >> k) == b | (0x80u8 >> k)) by (bit_vector);
            assert((b & !(0x80u8 >> k)) & !(0x80u8 >> k) == b & !(0x80u8 >> k)) by (bit_vector);
            assert((r | (0x80u8 >> k)) | (0x80u8 >> k) == r | (0x80u8 >> k)) by (bit_vector);
            assert((r & !(0x80u8 >> k)) & !(0x80u8 >> k) == r & !(0x80u8 >> k)) by (bit_vector);
            let p = self.paint(x, y, color);
            assert(p.paint(x, y, color).black =~= p.black);
            assert(p.paint(x, y, color).red =~= p.red);
        }
    }

    /// Applying requests in order keeps a frame well formed and its size
    /// unchanged.
    pub proof fn lemma_paint_all_wf(self, writes: Seq<PixelWrite>)
        requires
            self.wf(),
        ensures
            self.paint_all(writes).wf(),
            self.paint_all(writes).width == self.width,
            self.paint_all(writes).height == self.height,
        decreases writes.len(),
    {
        if writes.len() > 0 {
            let w = writes.last();
            self.lemma_paint_all_wf(writes.drop_last());
            self.paint_all(writes.drop_last()).lemma_paint_wf(w.x, w.y, w.color);
        }
    }

    /// The last write wins: after any sequence of requests, each pixel of
    /// the frame holds the plane bits of the latest request that named it,
    /// and its earlier bits if none did.
    pub proof fn lemma_last_write_wins(self, writes: Seq<PixelWrite>, x: nat, y: nat)
        requires
            self.wf(),
            self.contains(x, y),
        ensures
            match last_write_to(writes, x, y) {
                Some(color) => {
                    &&& self.paint_all(writes).black_bit(x, y) == color.black_bit()
                    &&& self.paint_all(writes).red_bit(x, y) == color.red_bit()
                    &&& self.paint_all(writes).color_at(x, y) == color
                },
                None => {
                    &&& self.paint_all(writes).black_bit(x, y) == self.black_bit(x, y)
                    &&& self.paint_all(writes).red_bit(x, y) == self.red_bit(x, y)
                    &&& self.paint_all(writes).color_at(x, y) == self.color_at(x, y)
                },
            },
        decreases writes.len(),
    {
        if writes.len() > 0 {
            let w = writes.last();
            let before = self.paint_all(writes.drop_last());
            self.lemma_paint_all_wf(writes.drop_last());
            self.lemma_last_write_wins(writes.drop_last(), x, y);
            if w.x == x && w.y == y {
                before.lemma_paint_sets(x, y, w.color);
            } else {
                before.lemma_paint_keeps_others(w.x, w.y, w.color, x, y);
            }
        }
    }
}

impl FrameView {
    /// Applying one more request is painting its pixel last.
    pub proof fn lemma_paint_all_push(self, writes: Seq<PixelWrite>, w: PixelWrite)
        ensures
            self.paint_all(writes.push(w)) == self.paint_all(writes).paint(w.x, w.y, w.color),
    {
        assert(writes.push(w).drop_last() =~= writes);
    }

    /// Applying two runs of requests one after the other is applying their
    /// concatenation.
    pub proof fn lemma_paint_all_concat(self, first: Seq<PixelWrite>, second: Seq<PixelWrite>)
        ensures
            self.paint_all(first + second) == self.paint_all(first).paint_all(second),
        decreases second.len(),
    {
        if second.len() == 0 {
            assert(first + second =~= first);
        } else {
            self.lemma_paint_all_concat(first, second.drop_last());
            assert((first + second).drop_last() =~= first + second.drop_last());
        }
    }

    /// Where every request of a run has the same colour, a pixel of the
    /// frame that any of them names ends in that colour, and every other
    /// pixel stays as it was.
    pub proof fn lemma_uniform_writes(self, writes: Seq<PixelWrite>, color: Color, x: nat, y: nat)
        requires
            self.wf(),
            self.contains(x, y),
            forall|i: int| 0 <= i < writes.len() ==> (#[trigger] writes[i]).color == color,
        ensures
            self.paint_all(writes).color_at(x, y) == (if names_pixel(writes, x, y) {
                color
            } else {
                self.color_at(x, y)
            }),
    {
        lemma_last_write_named(writes, x, y);
        self.lemma_last_write_wins(writes, x, y);
    }
}

/// Whether one of the requests names pixel `(x, y)`.
pub open spec fn names_pixel(writes: Seq<PixelWrite>, x: nat, y: nat) -> bool {
    exists|i: int| 0 <= i < writes.len() && (#[trigger] writes[i]).x == x && writes[i].y == y
}

/// The latest request that names a pixel is one of the requests, and there
/// is none only where no request names the pixel.
pub proof fn lemma_last_write_named(writes: Seq<PixelWrite>, x: nat, y: nat)
    ensures
        match last_write_to(writes, x, y) {
            Some(color) => exists|i: int|
                0 <= i < writes.len() && (#[trigger] writes[i]).x == x && writes[i].y == y
                    && writes[i].color == color,
            None => forall|i: int|
                0 <= i < writes.len() ==> !((#[trigger] writes[i]).x == x && writes[i].y == y),
        },
    decreases writes.len(),
{
    if writes.len() > 0 {
        let rest = writes.drop_last();
        lemma_last_write_named(rest, x, y);
        if writes.last().x == x && writes.last().y == y {
            assert(writes[writes.len() - 1].x == x);
        } else {
            match last_write_to(rest, x, y) {
                Some(color) => {
                    let i = choose|i: int|
                        0 <= i < rest.len() && (#[trigger] rest[i]).x == x && rest[i].y == y
                            && rest[i].color == color;
                    assert(writes[i] == rest[i]);
                },
                None => {
                    assert forall|i: int| 0 <= i < writes.len() implies !((
                    #[trigger] writes[i]).x == x && writes[i].y == y) by {
                        if i < rest.len() {
                            assert(writes[i] == rest[i]);
                        }
                    }
                },
            }
        }
    }
}

/// Frame buffer of the panel: two bit planes, one byte for eight pixels of
/// a row, most significant bit leftmost.
pub struct DisplayBuffer {
    width: u32,
    height: u32,
    black_buffer: Vec<u8>,
    red_buffer: Vec<u8>,
}

impl View for DisplayBuffer {
    type V = FrameView;

    closed spec fn view(&self) -> FrameView {
        FrameView {
            width: self.width as nat,
            height: self.height as nat,
            black: self.black_buffer@,
            red: self.red_buffer@,
        }
    }
}

/// Bytes of one row, computed without overflow.
fn row_bytes(width: u32) -> (n: usize)
    ensures
        n == bytes_per_row(width as nat),
{
    let whole: u32 = width / 8;
    if width % 8 == 0 {
        whole as usize
    } else {
        (whole + 1) as usize
    }
}

/// Overwrites every byte of `plane` with `value`.
fn fill_plane(plane: &mut Vec<u8>, value: u8)
    ensures
        final(plane)@ == Seq::new(old(plane)@.len(), |i: int| value),
{
    let n: usize = plane.len();
    let mut i: usize = 0;
    while i < n
        invariant
            i <= n,
            plane@.len() == n,
            n == old(plane)@.len(),
            forall|j: int| 0 <= j < i ==> plane@[j] == value,
        decreases n - i,
    {
        plane[i] = value;
        i += 1;
    }
    assert(plane@ =~= Seq::new(old(plane)@.len(), |i: int| value));
}

impl DisplayBuffer {
    /// A buffer of the given size with every pixel white.
    pub fn new(width: u32, height: u32) -> (buffer: Self)
        requires
            bytes_per_row(width as nat) * height <= usize::MAX,
        ensures
            buffer@ == FrameView::filled(width as nat, height as nat, Color::White),
            buffer@.wf(),
    {
        let bytes: usize = row_bytes(width);
        assert(bytes * height == bytes_per_row(width as nat) * height);
        let size: usize = bytes * (height as usize);
        let black_buffer: Vec<u8> = vec![0xFFu8; size];
        let red_buffer: Vec<u8> = vec![0x00u8; size];
        proof {
            FrameView::lemma_filled(width as nat, height as nat, Color::White);
            let v = FrameView::filled(width as nat, height as nat, Color::White);
            assert(black_buffer@ =~= v.black);
            assert(red_buffer@ =~= v.red);
        }
        DisplayBuffer { width, height, black_buffer, red_buffer }
    }

    /// Width in pixels.
    pub fn width(&self) -> (w: u32)
        ensures
            w == self@.width,
    {
        self.width
    }

    /// Height in pixels.
    pub fn height(&self) -> (h: u32)
        ensures
            h == self@.height,
    {
        self.height
    }

    /// Sets every pixel to `color`.
    pub fn clear(&mut self, color: Color)
        requires
            old(self)@.wf(),
        ensures
            final(self)@ == FrameView::filled(old(self)@.width, old(self)@.height, color),
            final(self)@.wf(),
            forall|i: int|
                0 <= i < final(self)@.plane_len() ==> #[trigger] final(self)@.black[i] == (
                if color == Color::Black {
                    0x00u8
                } else {
                    0xFFu8
                }),
            forall|i: int|
                0 <= i < final(self)@.plane_len() ==> #[trigger] final(self)@.red[i] == (
                if color == Color::Red {
                    0xFFu8
                } else {
                    0x00u8
                }),
            forall|x: nat, y: nat|
                final(self)@.contains(x, y) ==> #[trigger] final(self)@.color_at(x, y) == color,
    {
        proof {
            FrameView::lemma_filled(self@.width, self@.height, color);
        }
        let black: u8 = if color.black_bit() { 0xFF } else { 0x00 };
        let red: u8 = if color.red_bit() { 0xFF } else { 0x00 };
        fill_plane(&mut self.black_buffer, black);
        fill_plane(&mut self.red_buffer, red);
        assert(self@.black =~= FrameView::filled(old(self)@.width, old(self)@.height, color).black);
        assert(self@.red =~= FrameView::filled(old(self)@.width, old(self)@.height, color).red);
    }

    /// The black plane, row by row.
    pub fn black_buffer(&self) -> (plane: &[u8])
        ensures
            plane@ == self@.black,
    {
        self.black_buffer.as_slice()
    }

    /// The red plane, row by row.
    pub fn red_buffer(&self) -> (plane: &[u8])
        ensures
            plane@ == self@.red,
    {
        self.red_buffer.as_slice()
    }

    /// Sets pixel `(x, y)` to `color`. A pixel outside the buffer is
    /// ignored.
    pub fn set_pixel(&mut self, x: u32, y: u32, color: Color)
        requires
            old(self)@.wf(),
        ensures
            final(self)@ == old(self)@.paint(x as nat, y as nat, color),
            final(self)@.wf(),
    {
        proof {
            self@.lemma_paint_wf(x as nat, y as nat, color);
        }
        if x >= self.width || y >= self.height {
            return ;
        }
        proof {
            lemma_byte_index_in_range(self@, x as nat, y as nat);
        }
        let bytes: usize = row_bytes(self.width);
        assert(self@.byte_index(x as nat, y as nat) < self.black_buffer.len());
        assert(0 <= y * bytes <= y * bytes + x / 8) by (nonlinear_arith);
        let index: usize = (y as usize) * bytes + (x / 8) as usize;
        let mask: u8 = 0x80u8 >> ((x % 8) as u8);
        let black: u8 = self.black_buffer[index];
        let red: u8 = self.red_buffer[index];
        let new_black: u8 = if color.black_bit() { black | mask } else { black & !mask };
        let new_red: u8 = if color.red_bit() { red | mask } else { red & !mask };
        self.black_buffer[index] = new_black;
        self.red_buffer[index] = new_red;
    }
}

} // verus!
