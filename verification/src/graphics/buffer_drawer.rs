//! Pixel buffers in the layouts a frame buffer can have, and drawing on them.
use vstd::prelude::*;

verus! {

use crate::error::{Error, ErrorKind, Result};
use crate::graphics::color::{spec_grayscale, Color};
use crate::graphics::geometry::{fits_i32, Point, Rectangle};

/// How the bytes of a pixel encode its color.
#[derive(Debug, Clone, Copy, PartialEq, Eq, Structural)]
pub enum PixelFormat {
    /// Red, green and blue bytes, in this order.
    Rgb,
    /// Blue, green and red bytes, in this order.
    Bgr,
    /// One gray level byte.
    U8,
    /// A layout this library does not draw.
    Unknown,
}

/// The pixel encoder for a supported pixel format.
#[derive(Debug, Clone, Copy, PartialEq, Eq, Structural)]
pub enum PixelDrawer {
    Rgb,
    Bgr,
    U8,
}

impl PixelDrawer {
    /// Number of bytes the encoder writes per pixel.
    pub open spec fn width(self) -> int {
        match self {
            PixelDrawer::Rgb => 3,
            PixelDrawer::Bgr => 3,
            PixelDrawer::U8 => 1,
        }
    }

    /// The pixel format this encoder writes.
    pub open spec fn format(self) -> PixelFormat {
        match self {
            PixelDrawer::Rgb => PixelFormat::Rgb,
            PixelDrawer::Bgr => PixelFormat::Bgr,
            PixelDrawer::U8 => PixelFormat::U8,
        }
    }

    /// `bytes` after the pixel at byte `i` is set to `c`.
    pub open spec fn written(self, bytes: Seq<u8>, i: int, c: Color) -> Seq<u8> {
        match self {
            PixelDrawer::Rgb => bytes.update(i, c.r).update(i + 1, c.g).update(i + 2, c.b),
            PixelDrawer::Bgr => bytes.update(i, c.b).update(i + 1, c.g).update(i + 2, c.r),
            PixelDrawer::U8 => bytes.update(i, spec_grayscale(c)),
        }
    }

    /// The color of the pixel at byte `i` of `bytes`.
    pub open spec fn read(self, bytes: Seq<u8>, i: int) -> Color {
        match self {
            PixelDrawer::Rgb => Color { r: bytes[i], g: bytes[i + 1], b: bytes[i + 2] },
            PixelDrawer::Bgr => Color { r: bytes[i + 2], g: bytes[i + 1], b: bytes[i] },
            PixelDrawer::U8 => Color { r: bytes[i], g: bytes[i], b: bytes[i] },
        }
    }

    /// The color a pixel shows after `c` was drawn on it.
    pub open spec fn shown(self, c: Color) -> Color {
        match self {
            PixelDrawer::U8 => {
                let v = spec_grayscale(c);
                Color { r: v, g: v, b: v }
            },
            _ => c,
        }
    }

    /// Writes color `c` into the pixel at byte `pixel_index`.
    pub fn pixel_draw(&self, buffer: &mut Vec<u8>, pixel_index: usize, c: Color)
        requires
            pixel_index + self.width() <= old(buffer).len(),
        ensures
            final(buffer)@ == self.written(old(buffer)@, pixel_index as int, c),
    {
        match self {
            PixelDrawer::Rgb => {
                buffer.set(pixel_index, c.r);
                buffer.set(pixel_index + 1, c.g);
                buffer.set(pixel_index + 2, c.b);
            },
            PixelDrawer::Bgr => {
                buffer.set(pixel_index, c.b);
                buffer.set(pixel_index + 1, c.g);
                buffer.set(pixel_index + 2, c.r);
            },
            PixelDrawer::U8 => {
                buffer.set(pixel_index, c.to_grayscale());
            },
        }
    }

    /// Reads the color of the pixel at byte `pixel_index`.
    pub fn color_at(&self, buffer: &[u8], pixel_index: usize) -> (c: Color)
        requires
            pixel_index + self.width() <= buffer.len(),
        ensures
            c == self.read(buffer@, pixel_index as int),
    {
        match self {
            PixelDrawer::Rgb => Color::new(
                buffer[pixel_index],
                buffer[pixel_index + 1],
                buffer[pixel_index + 2],
            ),
            PixelDrawer::Bgr => Color::new(
                buffer[pixel_index + 2],
                buffer[pixel_index + 1],
                buffer[pixel_index],
            ),
            PixelDrawer::U8 => Color::from_grayscale(buffer[pixel_index]),
        }
    }
}

/// The encoder of `pixel_format`, if it has one.
pub open spec fn spec_pixel_drawer(pixel_format: PixelFormat) -> Option<PixelDrawer> {
    match pixel_format {
        PixelFormat::Rgb => Some(PixelDrawer::Rgb),
        PixelFormat::Bgr => Some(PixelDrawer::Bgr),
        PixelFormat::U8 => Some(PixelDrawer::U8),
        PixelFormat::Unknown => None,
    }
}

/// The encoder of `pixel_format`; an `UnsupportedPixelFormat` error for a
/// layout without one.
pub fn select_pixel_drawer(pixel_format: PixelFormat) -> (r: Result<PixelDrawer>)
    ensures
        match spec_pixel_drawer(pixel_format) {
            Some(d) => r == Ok::<PixelDrawer, Error>(d),
            None => r == Err::<PixelDrawer, Error>(Error { kind: ErrorKind::UnsupportedPixelFormat }),
        },
{
    match pixel_format {
        PixelFormat::Rgb => Ok(PixelDrawer::Rgb),
        PixelFormat::Bgr => Ok(PixelDrawer::Bgr),
        PixelFormat::U8 => Ok(PixelDrawer::U8),
        PixelFormat::Unknown => Err(Error::new(ErrorKind::UnsupportedPixelFormat)),
    }
}

/// What a screen looks like: its size in pixels, bytes per pixel and layout.
#[derive(Debug, Clone, Copy, PartialEq, Eq, Structural)]
pub struct ScreenInfo {
    pub size: Point,
    pub bytes_per_pixel: i32,
    pub pixel_format: PixelFormat,
}

impl ScreenInfo {
    /// The whole screen.
    pub fn area(&self) -> (r: Rectangle)
        ensures
            r == (Rectangle { pos: Point { x: 0, y: 0 }, size: self.size }),
    {
        Rectangle { pos: Point { x: 0, y: 0 }, size: self.size }
    }
}

/// The contents and layout of a pixel buffer.
pub struct Canvas {
    pub size: Point,
    pub stride: int,
    pub bpp: int,
    pub drawer: PixelDrawer,
    pub pixel_format: PixelFormat,
    pub bytes: Seq<u8>,
}

impl Canvas {
    /// Rows of `stride` pixels of `bpp` bytes each, `size.x <= stride`, and
    /// every offset fits an `i32`.
    pub open spec fn wf(self) -> bool {
        &&& 0 <= self.size.x <= self.stride
        &&& 0 <= self.size.y
        &&& 1 <= self.drawer.width() <= self.bpp
        &&& self.drawer.format() == self.pixel_format
        &&& self.stride * self.size.y * self.bpp <= self.bytes.len()
        &&& self.stride * self.size.y * self.bpp <= i32::MAX
        &&& self.size.y * self.bpp <= i32::MAX
        &&& self.stride <= i32::MAX
        &&& self.bpp <= i32::MAX
        &&& self.bytes.len() <= usize::MAX
    }

    /// The pixels of the buffer.
    pub open spec fn area(self) -> Rectangle {
        Rectangle { pos: Point { x: 0, y: 0 }, size: self.size }
    }

    /// Bytes in one row.
    pub open spec fn row_bytes(self) -> int {
        self.stride * self.bpp
    }

    /// Byte at which the pixel at `p` starts.
    pub open spec fn offset(self, p: Point) -> int {
        (p.y * self.stride + p.x) * self.bpp
    }

    /// The color of the pixel at `p`; `None` outside the buffer.
    pub open spec fn color_at(self, p: Point) -> Option<Color> {
        if self.area().contains_spec(p) {
            Some(self.drawer.read(self.bytes, self.offset(p)))
        } else {
            None
        }
    }

    /// The same layout with other bytes.
    pub open spec fn with_bytes(self, bytes: Seq<u8>) -> Canvas {
        Canvas { bytes, ..self }
    }

    /// Whether `other` has the same layout as this one.
    pub open spec fn same_layout(self, other: Canvas) -> bool {
        &&& other.size == self.size
        &&& other.stride == self.stride
        &&& other.bpp == self.bpp
        &&& other.drawer == self.drawer
        &&& other.pixel_format == self.pixel_format
        &&& other.bytes.len() == self.bytes.len()
    }

    /// Whether byte `k` belongs to a pixel of `r`, counting the bytes that
    /// pad a pixel to `bpp`.
    pub open spec fn in_rect_bytes(self, r: Rectangle, k: int) -> bool {
        self.in_rows_bytes(r, r.pos.y as int, r.y_end_spec(), k)
    }

    /// Whether byte `k` belongs to a pixel of `r` in rows `ylo <= y < yhi`.
    pub open spec fn in_rows_bytes(self, r: Rectangle, ylo: int, yhi: int, k: int) -> bool {
        &&& 0 <= k
        &&& ylo <= k / self.row_bytes() < yhi
        &&& r.pos.x * self.bpp <= k % self.row_bytes() < r.x_end_spec() * self.bpp
    }

    /// How many bytes apart a pixel and the pixel `offset` away from it are.
    pub open spec fn shift(self, offset: Point) -> int {
        offset.y * self.row_bytes() + offset.x * self.bpp
    }

    /// Where `move_area` writes: the part of `src` inside the buffer, moved
    /// by `offset` and clipped to the buffer again; `None` when nothing moves.
    pub open spec fn move_dst(self, offset: Point, src: Rectangle) -> Option<Rectangle> {
        if offset.x == 0 && offset.y == 0 {
            None
        } else {
            match src.spec_intersection(self.area()) {
                None => None,
                Some(a) => a.spec_translate(offset).spec_intersection(self.area()),
            }
        }
    }

    /// The buffer after the pixels of `src` are moved by `offset`: every byte
    /// of the destination takes the byte `shift(offset)` before it, the
    /// others keep theirs.
    pub open spec fn moved(self, offset: Point, src: Rectangle) -> Canvas {
        match self.move_dst(offset, src) {
            None => self,
            Some(dst) => self.with_bytes(
                Seq::new(
                    self.bytes.len(),
                    |k: int|
                        if self.in_rect_bytes(dst, k) {
                            self.bytes[k - self.shift(offset)]
                        } else {
                            self.bytes[k]
                        },
                ),
            ),
        }
    }

    /// The buffer after `c` is drawn at `p`; unchanged when `p` is outside.
    pub open spec fn drawn(self, p: Point, c: Color) -> Canvas {
        if self.area().contains_spec(p) {
            self.with_bytes(self.drawer.written(self.bytes, self.offset(p), c))
        } else {
            self
        }
    }
}

/// The first byte after the pixel at `p` lies within the first `size.y` rows.
pub proof fn lemma_pixel_in_bounds(v: Canvas, p: Point)
    requires
        v.wf(),
        v.area().contains_spec(p),
    ensures
        0 <= v.offset(p),
        v.offset(p) + v.bpp <= v.stride * v.size.y * v.bpp,
{
    let lin = p.y * v.stride + p.x;
    assert(0 <= p.y * v.stride) by (nonlinear_arith)
        requires
            0 <= p.y,
            0 <= v.stride,
    ;
    assert(p.y * v.stride <= (v.size.y - 1) * v.stride) by (nonlinear_arith)
        requires
            p.y <= v.size.y - 1,
            0 <= v.stride,
    ;
    assert((v.size.y - 1) * v.stride + v.stride == v.stride * v.size.y) by (nonlinear_arith);
    assert(0 <= lin + 1 <= v.stride * v.size.y);
    assert(0 <= lin * v.bpp) by (nonlinear_arith)
        requires
            0 <= lin,
            0 <= v.bpp,
    ;
    assert((lin + 1) * v.bpp <= (v.stride * v.size.y) * v.bpp) by (nonlinear_arith)
        requires
            lin + 1 <= v.stride * v.size.y,
            0 <= v.bpp,
    ;
    assert((lin + 1) * v.bpp == lin * v.bpp + v.bpp) by (nonlinear_arith);
    assert(v.stride * v.size.y * v.bpp == (v.stride * v.size.y) * v.bpp);
}

/// Distinct pixels occupy disjoint bytes.
pub proof fn lemma_pixels_apart(v: Canvas, p: Point, q: Point)
    requires
        v.wf(),
        v.area().contains_spec(p),
        v.area().contains_spec(q),
        p != q,
    ensures
        v.offset(p) + v.bpp <= v.offset(q) || v.offset(q) + v.bpp <= v.offset(p),
{
    let lp = p.y * v.stride + p.x;
    let lq = q.y * v.stride + q.x;
    if p.y == q.y {
        assert(p.x != q.x);
        assert(lp != lq);
    } else if p.y < q.y {
        assert(lq - lp == (q.y - p.y) * v.stride + q.x - p.x) by (nonlinear_arith)
            requires
                lp == p.y * v.stride + p.x,
                lq == q.y * v.stride + q.x,
        ;
        assert((q.y - p.y) * v.stride >= v.stride) by (nonlinear_arith)
            requires
                q.y - p.y >= 1,
                v.stride >= 0,
        ;
        assert(lp < lq);
    } else {
        assert(lp - lq == (p.y - q.y) * v.stride + p.x - q.x) by (nonlinear_arith)
            requires
                lp == p.y * v.stride + p.x,
                lq == q.y * v.stride + q.x,
        ;
        assert((p.y - q.y) * v.stride >= v.stride) by (nonlinear_arith)
            requires
                p.y - q.y >= 1,
                v.stride >= 0,
        ;
        assert(lq < lp);
    }
    if lp < lq {
        assert((lq - lp) * v.bpp >= v.bpp) by (nonlinear_arith)
            requires
                lq - lp >= 1,
                v.bpp >= 0,
        ;
        assert(lq * v.bpp - lp * v.bpp == (lq - lp) * v.bpp) by (nonlinear_arith);
    } else {
        assert((lp - lq) * v.bpp >= v.bpp) by (nonlinear_arith)
            requires
                lp - lq >= 1,
                v.bpp >= 0,
        ;
        assert(lp * v.bpp - lq * v.bpp == (lp - lq) * v.bpp) by (nonlinear_arith);
    }
}

/// Drawing a pixel keeps the layout; afterwards the pixel shows the drawn
/// color (as the format stores it) and every other pixel keeps its color.
pub proof fn law_draw_then_color_at(v: Canvas, p: Point, q: Point, c: Color)
    requires
        v.wf(),
    ensures
        v.drawn(p, c).wf(),
        v.same_layout(v.drawn(p, c)),
        v.drawn(p, c).color_at(p) == (if v.area().contains_spec(p) {
            Some(v.drawer.shown(c))
        } else {
            None::<Color>
        }),
        q != p ==> v.drawn(p, c).color_at(q) == v.color_at(q),
{
    if v.area().contains_spec(p) {
        lemma_pixel_in_bounds(v, p);
        if q != p && v.area().contains_spec(q) {
            lemma_pixels_apart(v, p, q);
            lemma_pixel_in_bounds(v, q);
        }
    }
}


/// `bytes` after the `len` bytes at `src` are copied to `dst`.
pub open spec fn copied_within(bytes: Seq<u8>, src: int, dst: int, len: int) -> Seq<u8> {
    Seq::new(bytes.len(), |k: int| if dst <= k < dst + len { bytes[k - dst + src] } else { bytes[k] })
}

/// Copies the `len` bytes at `src` to `dst`; the two ranges may overlap.
fn copy_bytes_within(buffer: &mut Vec<u8>, src: usize, dst: usize, len: usize)
    requires
        src + len <= old(buffer).len(),
        dst + len <= old(buffer).len(),
    ensures
        final(buffer)@ == copied_within(old(buffer)@, src as int, dst as int, len as int),
{
    let ghost start = buffer@;
    if dst <= src {
        let mut i: usize = 0;
        while i < len
            invariant
                i <= len,
                dst <= src,
                src + len <= buffer.len(),
                dst + len <= buffer.len(),
                buffer.len() == start.len(),
                buffer@ == copied_within(start, src as int, dst as int, i as int),
            decreases len - i,
        {
            let b = buffer[src + i];
            buffer.set(dst + i, b);
            i = i + 1;
            assert(buffer@ =~= copied_within(start, src as int, dst as int, i as int));
        }
    } else {
        let mut i: usize = len;
        while i > 0
            invariant
                i <= len,
                dst > src,
                src + len <= buffer.len(),
                dst + len <= buffer.len(),
                buffer.len() == start.len(),
                buffer@ == Seq::new(
                    start.len(),
                    |k: int|
                        if dst + i <= k < dst + len {
                            start[k - dst + src]
                        } else {
                            start[k]
                        },
                ),
            decreases i,
        {
            let b = buffer[src + i - 1];
            buffer.set(dst + i - 1, b);
            i = i - 1;
            assert(buffer@ =~= Seq::new(
                start.len(),
                |k: int|
                    if dst + i <= k < dst + len {
                        start[k - dst + src]
                    } else {
                        start[k]
                    },
            ));
        }
        assert(buffer@ =~= copied_within(start, src as int, dst as int, len as int));
    }
}

/// The bytes `y * rb + a <= k < y * rb + b` are those whose row is `y` and
/// whose place in the row lies in `a <= k % rb < b`.
proof fn lemma_row_span(rb: int, y: int, a: int, b: int, k: int)
    requires
        rb > 0,
        0 <= a <= b <= rb,
        y >= 0,
    ensures
        (y * rb + a <= k < y * rb + b) <==> (0 <= k && k / rb == y && a <= k % rb < b),
{
    if y * rb + a <= k < y * rb + b {
        assert(0 <= y * rb) by (nonlinear_arith)
            requires
                y >= 0,
                rb > 0,
        ;
        vstd::arithmetic::div_mod::lemma_fundamental_div_mod_converse(k, rb, y, k - y * rb);
    }
    if 0 <= k && k / rb == y && a <= k % rb < b {
        vstd::arithmetic::div_mod::lemma_fundamental_div_mod(k, rb);
        assert(rb * (k / rb) == y * rb) by (nonlinear_arith)
            requires
                k / rb == y,
        ;
    }
}

/// Row and place in the row of a byte moved by `shift`.
proof fn lemma_shifted_byte(rb: int, bpp: int, k: int, oy: int, ox: int)
    requires
        rb > 0,
        0 <= k,
        0 <= k % rb - ox * bpp < rb,
    ensures
        (k - (oy * rb + ox * bpp)) / rb == k / rb - oy,
        (k - (oy * rb + ox * bpp)) % rb == k % rb - ox * bpp,
{
    vstd::arithmetic::div_mod::lemma_fundamental_div_mod(k, rb);
    let q = k / rb - oy;
    let r = k % rb - ox * bpp;
    assert(k - (oy * rb + ox * bpp) == q * rb + r) by (nonlinear_arith)
        requires
            k == rb * (k / rb) + (k % rb),
            q == k / rb - oy,
            r == k % rb - ox * bpp,
    ;
    vstd::arithmetic::div_mod::lemma_fundamental_div_mod_converse(
        k - (oy * rb + ox * bpp),
        rb,
        q,
        r,
    );
}

/// Whether a screen description can back a pixel buffer: a drawable layout
/// with enough bytes per pixel.
pub open spec fn screen_info_wf(info: ScreenInfo) -> bool {
    match spec_pixel_drawer(info.pixel_format) {
        Some(d) => d.width() <= info.bytes_per_pixel,
        None => 1 <= info.bytes_per_pixel,
    }
}

/// A pixel buffer in memory with the layout of a frame buffer.
pub struct BufferDrawer {
    size: Point,
    stride: i32,
    bytes_per_pixel: i32,
    pixel_format: PixelFormat,
    pixel_drawer: PixelDrawer,
    buffer: Vec<u8>,
}

impl View for BufferDrawer {
    type V = Canvas;

    closed spec fn view(&self) -> Canvas {
        Canvas {
            size: self.size,
            stride: self.stride as int,
            bpp: self.bytes_per_pixel as int,
            drawer: self.pixel_drawer,
            pixel_format: self.pixel_format,
            bytes: self.buffer@,
        }
    }
}

impl BufferDrawer {
    /// A buffer over `buffer` with the given layout; an
    /// `UnsupportedPixelFormat` error when the format has no encoder.
    pub fn new_common(
        size: Point,
        stride: i32,
        bytes_per_pixel: i32,
        pixel_format: PixelFormat,
        buffer: Vec<u8>,
    ) -> (r: Result<BufferDrawer>)
        requires
            0 <= size.x <= stride,
            0 <= size.y,
            stride * size.y * bytes_per_pixel <= buffer.len(),
            stride * size.y * bytes_per_pixel <= i32::MAX,
            size.y * bytes_per_pixel <= i32::MAX,
            spec_pixel_drawer(pixel_format) matches Some(d) ==> d.width() <= bytes_per_pixel,
        ensures
            match spec_pixel_drawer(pixel_format) {
                Some(d) => r matches Ok(b) && b@ == (Canvas {
                    size,
                    stride: stride as int,
                    bpp: bytes_per_pixel as int,
                    drawer: d,
                    pixel_format,
                    bytes: buffer@,
                }) && b@.wf(),
                None => r == Err::<BufferDrawer, Error>(
                    Error { kind: ErrorKind::UnsupportedPixelFormat },
                ),
            },
    {
        let pixel_drawer = match select_pixel_drawer(pixel_format) {
            Ok(d) => d,
            Err(e) => return Err(e),
        };
        Ok(BufferDrawer { size, stride, bytes_per_pixel, pixel_format, pixel_drawer, buffer })
    }

    /// A zeroed buffer of `size` pixels laid out as the screen is; a
    /// `TryFromInt` error for a negative size and an `UnsupportedPixelFormat`
    /// error when the screen's format has no encoder.
    pub fn new_shadow(size: Point, screen_info: ScreenInfo) -> (r: Result<BufferDrawer>)
        requires
            screen_info_wf(screen_info),
            fits_i32(size.x * size.y * screen_info.bytes_per_pixel),
            fits_i32(size.x * size.y),
            fits_i32(size.y * screen_info.bytes_per_pixel),
        ensures
            (size.x < 0 || size.y < 0) ==> r == Err::<BufferDrawer, Error>(
                Error { kind: ErrorKind::TryFromInt },
            ),
            (0 <= size.x && 0 <= size.y) ==> match spec_pixel_drawer(screen_info.pixel_format) {
                Some(d) => r matches Ok(b) && b@.wf() && b@.size == size && b@.stride == size.x
                    && b@.bpp == screen_info.bytes_per_pixel && b@.drawer == d
                    && b@.bytes == Seq::new(
                    (size.x * size.y * screen_info.bytes_per_pixel) as nat,
                    |i: int| 0u8,
                ),
                None => r == Err::<BufferDrawer, Error>(
                    Error { kind: ErrorKind::UnsupportedPixelFormat },
                ),
            },
    {
        if size.x < 0 || size.y < 0 {
            return Err(Error::new(ErrorKind::TryFromInt));
        }
        let bpp = screen_info.bytes_per_pixel;
        proof {
            assert(0 <= size.x * size.y) by (nonlinear_arith)
                requires
                    0 <= size.x,
                    0 <= size.y,
            ;
            assert(0 <= size.x * size.y * bpp) by (nonlinear_arith)
                requires
                    0 <= size.x * size.y,
                    1 <= bpp,
            ;
        }
        let n = (size.x * size.y * bpp) as usize;
        let mut buffer: Vec<u8> = Vec::new();
        let mut i: usize = 0;
        while i < n
            invariant
                i <= n,
                buffer@ == Seq::new(i as nat, |k: int| 0u8),
            decreases n - i,
        {
            buffer.push(0u8);
            i = i + 1;
            assert(buffer@ =~= Seq::new(i as nat, |k: int| 0u8));
        }
        BufferDrawer::new_common(size, size.x, bpp, screen_info.pixel_format, buffer)
    }

    /// Width and height in pixels.
    pub fn size(&self) -> (r: Point)
        ensures
            r == self@.size,
    {
        self.size
    }

    /// All pixels of the buffer.
    pub fn area(&self) -> (r: Rectangle)
        ensures
            r == self@.area(),
    {
        Rectangle { pos: Point { x: 0, y: 0 }, size: self.size }
    }

    /// The layout of the buffer.
    pub fn info(&self) -> (r: ScreenInfo)
        ensures
            r.size == self@.size,
            r.bytes_per_pixel == self@.bpp,
            r.pixel_format == self@.pixel_format,
    {
        ScreenInfo {
            size: self.size,
            bytes_per_pixel: self.bytes_per_pixel,
            pixel_format: self.pixel_format,
        }
    }

    /// Byte at which the pixel at `p` starts; `None` outside the buffer.
    pub fn pixel_index(&self, p: Point) -> (r: Option<usize>)
        requires
            self@.wf(),
        ensures
            r == (if self@.area().contains_spec(p) {
                Some(self@.offset(p) as usize)
            } else {
                None::<usize>
            }),
            r matches Some(i) ==> i + self@.bpp <= self@.bytes.len(),
    {
        if !(0 <= p.x && p.x < self.size.x && 0 <= p.y && p.y < self.size.y) {
            return None;
        }
        proof {
            lemma_pixel_in_bounds(self@, p);
            assert(0 <= p.y * self.stride <= p.y * self.stride + p.x);
            assert(p.y * self.stride + p.x <= (p.y * self.stride + p.x) * self.bytes_per_pixel)
                by (nonlinear_arith)
                requires
                    0 <= p.y * self.stride + p.x,
                    1 <= self.bytes_per_pixel,
            ;
        }
        let idx = (p.y * self.stride + p.x) * self.bytes_per_pixel;
        Some(idx as usize)
    }

    /// Sets the pixel at `p` to `c`; does nothing outside the buffer.
    pub fn draw(&mut self, p: Point, c: Color)
        requires
            old(self)@.wf(),
        ensures
            final(self)@ == old(self)@.drawn(p, c),
    {
        if let Some(pixel_index) = self.pixel_index(p) {
            proof {
                lemma_pixel_in_bounds(self@, p);
            }
            self.pixel_drawer.pixel_draw(&mut self.buffer, pixel_index, c);
        }
    }

    /// The color of the pixel at `p`; `None` outside the buffer.
    pub fn color_at(&self, p: Point) -> (r: Option<Color>)
        requires
            self@.wf(),
        ensures
            r == self@.color_at(p),
    {
        match self.pixel_index(p) {
            Some(pixel_index) => {
                proof {
                    lemma_pixel_in_bounds(self@, p);
                }
                Some(self.pixel_drawer.color_at(self.buffer.as_slice(), pixel_index))
            },
            None => None,
        }
    }

    /// Paints every pixel of `rect` with `c`.
    pub fn fill_rect(&mut self, rect: Rectangle, c: Color)
        requires
            old(self)@.wf(),
            rect.wf(),
        ensures
            final(self)@.wf(),
            old(self)@.same_layout(final(self)@),
            forall|q: Point| #[trigger]
                final(self)@.color_at(q) == (if rect.contains_spec(q) && old(self)@.area().contains_spec(q) {
                    Some(old(self)@.drawer.shown(c))
                } else {
                    old(self)@.color_at(q)
                }),
    {
        let ghost start = self@;
        let x0 = rect.pos.x;
        let y0 = rect.pos.y;
        let x1 = rect.pos.x + rect.size.x;
        let y1 = rect.pos.y + rect.size.y;
        let mut y = y0;
        while y < y1
            invariant
                y0 <= y,
                y > y0 ==> y <= y1,
                x0 == rect.pos.x,
                y1 == rect.pos.y + rect.size.y,
                x1 == rect.pos.x + rect.size.x,
                y0 == rect.pos.y,
                self@.wf(),
                start.same_layout(self@),
                forall|q: Point| #[trigger]
                    self@.color_at(q) == (if rect.contains_spec(q) && q.y < y && start.area().contains_spec(q) {
                        Some(start.drawer.shown(c))
                    } else {
                        start.color_at(q)
                    }),
            decreases y1 - y,
        {
            let mut x = x0;
            while x < x1
                invariant
                    x0 <= x,
                    x > x0 ==> x <= x1,
                    y0 <= y < y1,
                    x0 == rect.pos.x,
                    y1 == rect.pos.y + rect.size.y,
                    x1 == rect.pos.x + rect.size.x,
                    y0 == rect.pos.y,
                    self@.wf(),
                    start.same_layout(self@),
                    forall|q: Point| #[trigger]
                        self@.color_at(q) == (if rect.contains_spec(q) && (q.y < y || (q.y == y && q.x < x))
                            && start.area().contains_spec(q) {
                            Some(start.drawer.shown(c))
                        } else {
                            start.color_at(q)
                        }),
                decreases x1 - x,
            {
                let ghost prev = self@;
                let p = Point { x, y };
                self.draw(p, c);
                proof {
                    assert forall|q: Point| #[trigger]
                        self@.color_at(q) == (if rect.contains_spec(q) && (q.y < y || (q.y == y && q.x < x + 1))
                            && start.area().contains_spec(q) {
                            Some(start.drawer.shown(c))
                        } else {
                            start.color_at(q)
                        }) by {
                        law_draw_then_color_at(prev, p, q, c);
                    }
                    law_draw_then_color_at(prev, p, p, c);
                }
                x = x + 1;
            }
            y = y + 1;
        }
    }

    /// Draws the outline of `rect` in `c`: its first and last row and its
    /// first and last column; nothing when a side is zero.
    pub fn draw_rect(&mut self, rect: Rectangle, c: Color)
        requires
            old(self)@.wf(),
            rect.wf(),
            rect.x_end_spec() > i32::MIN,
            rect.y_end_spec() > i32::MIN,
        ensures
            final(self)@.wf(),
            old(self)@.same_layout(final(self)@),
            forall|q: Point| #[trigger]
                final(self)@.color_at(q) == (if on_outline(rect, q) && old(self)@.area().contains_spec(q) {
                    Some(old(self)@.drawer.shown(c))
                } else {
                    old(self)@.color_at(q)
                }),
    {
        if rect.size.x == 0 || rect.size.y == 0 {
            return;
        }
        let ghost start = self@;
        let x0 = rect.pos.x;
        let y0 = rect.pos.y;
        let x1 = rect.pos.x + rect.size.x;
        let y1 = rect.pos.y + rect.size.y;
        let mut x = x0;
        while x < x1
            invariant
                x0 <= x,
                x > x0 ==> x <= x1,
                x0 == rect.pos.x,
                y0 == rect.pos.y,
                x1 == rect.x_end_spec(),
                y1 == rect.y_end_spec(),
                y1 > i32::MIN,
                self@.wf(),
                start.same_layout(self@),
                forall|q: Point| #[trigger]
                    self@.color_at(q) == (if x0 <= q.x < x && (q.y == y0 || q.y == y1 - 1)
                        && start.area().contains_spec(q) {
                        Some(start.drawer.shown(c))
                    } else {
                        start.color_at(q)
                    }),
            decreases x1 - x,
        {
            let ghost prev = self@;
            let p = Point { x, y: y0 };
            self.draw(p, c);
            proof {
                law_draw_then_color_at(prev, p, p, c);
            }
            let ghost mid = self@;
            let p2 = Point { x, y: y1 - 1 };
            self.draw(p2, c);
            proof {
                law_draw_then_color_at(mid, p2, p2, c);
                assert forall|q: Point| #[trigger]
                    self@.color_at(q) == (if x0 <= q.x < x + 1 && (q.y == y0 || q.y == y1 - 1)
                        && start.area().contains_spec(q) {
                        Some(start.drawer.shown(c))
                    } else {
                        start.color_at(q)
                    }) by {
                    law_draw_then_color_at(prev, p, q, c);
                    law_draw_then_color_at(mid, p2, q, c);
                    law_draw_then_color_at(prev, p, p, c);
                    law_draw_then_color_at(mid, p2, p2, c);
                }
            }
            x = x + 1;
        }
        let ghost after_rows = self@;
        let mut y = y0;
        while y < y1
            invariant
                y0 <= y,
                y > y0 ==> y <= y1,
                x0 == rect.pos.x,
                y0 == rect.pos.y,
                x1 == rect.x_end_spec(),
                y1 == rect.y_end_spec(),
                x1 > i32::MIN,
                self@.wf(),
                start.same_layout(self@),
                forall|q: Point| #[trigger]
                    after_rows.color_at(q) == (if x0 <= q.x < x1 && (q.y == y0 || q.y == y1 - 1)
                        && start.area().contains_spec(q) {
                        Some(start.drawer.shown(c))
                    } else {
                        start.color_at(q)
                    }),
                forall|q: Point| #[trigger]
                    self@.color_at(q) == (if y0 <= q.y < y && (q.x == x0 || q.x == x1 - 1)
                        && start.area().contains_spec(q) {
                        Some(start.drawer.shown(c))
                    } else {
                        after_rows.color_at(q)
                    }),
            decreases y1 - y,
        {
            let ghost prev = self@;
            let p = Point { x: x0, y };
            self.draw(p, c);
            proof {
                law_draw_then_color_at(prev, p, p, c);
            }
            let ghost mid = self@;
            let p2 = Point { x: x1 - 1, y };
            self.draw(p2, c);
            proof {
                law_draw_then_color_at(mid, p2, p2, c);
                assert forall|q: Point| #[trigger]
                    self@.color_at(q) == (if y0 <= q.y < y + 1 && (q.x == x0 || q.x == x1 - 1)
                        && start.area().contains_spec(q) {
                        Some(start.drawer.shown(c))
                    } else {
                        after_rows.color_at(q)
                    }) by {
                    law_draw_then_color_at(prev, p, q, c);
                    law_draw_then_color_at(mid, p2, q, c);
                    law_draw_then_color_at(prev, p, p, c);
                    law_draw_then_color_at(mid, p2, p2, c);
                }
            }
            y = y + 1;
        }
        proof {
            assert forall|q: Point| #[trigger]
                self@.color_at(q) == (if on_outline(rect, q) && start.area().contains_spec(q) {
                    Some(start.drawer.shown(c))
                } else {
                    start.color_at(q)
                }) by {
                assert(self@.color_at(q) == (if y0 <= q.y < y1 && (q.x == x0 || q.x == x1 - 1)
                    && start.area().contains_spec(q) {
                    Some(start.drawer.shown(c))
                } else {
                    after_rows.color_at(q)
                }));
                assert(after_rows.color_at(q) == (if x0 <= q.x < x1 && (q.y == y0 || q.y == y1 - 1)
                    && start.area().contains_spec(q) {
                    Some(start.drawer.shown(c))
                } else {
                    start.color_at(q)
                }));
            }
        }
    }

    /// Draws a raised box: the inside of `area` in `background`, the top and
    /// left edges in `border_top_left`, and the lines just below and just
    /// right of `area` in `border_bottom_right`, each painted over the ones
    /// before it in this order.
    pub fn draw_box(
        &mut self,
        area: Rectangle,
        background: Color,
        border_top_left: Color,
        border_bottom_right: Color,
    )
        requires
            old(self)@.wf(),
            box_fits(area),
        ensures
            final(self)@.wf(),
            old(self)@.same_layout(final(self)@),
            forall|q: Point| #[trigger]
                final(self)@.color_at(q) == (if !old(self)@.area().contains_spec(q) {
                    None::<Color>
                } else if box_bottom(area).contains_spec(q) || box_right(area).contains_spec(q) {
                    Some(old(self)@.drawer.shown(border_bottom_right))
                } else if box_top(area).contains_spec(q) || box_left(area).contains_spec(q) {
                    Some(old(self)@.drawer.shown(border_top_left))
                } else if box_inner(area).contains_spec(q) {
                    Some(old(self)@.drawer.shown(background))
                } else {
                    old(self)@.color_at(q)
                }),
    {
        let pos = area.pos;
        let size = area.size;
        self.fill_rect(
            Rectangle {
                pos: Point { x: pos.x + 1, y: pos.y + 1 },
                size: Point { x: size.x - 2, y: size.y - 2 },
            },
            background,
        );
        self.fill_rect(Rectangle { pos, size: Point { x: size.x, y: 1 } }, border_top_left);
        self.fill_rect(Rectangle { pos, size: Point { x: 1, y: size.y } }, border_top_left);
        self.fill_rect(
            Rectangle { pos: Point { x: pos.x, y: pos.y + size.y }, size: Point { x: size.x, y: 1 } },
            border_bottom_right,
        );
        self.fill_rect(
            Rectangle { pos: Point { x: pos.x + size.x, y: pos.y }, size: Point { x: 1, y: size.y } },
            border_bottom_right,
        );
    }

    /// Moves the pixels of `src` by `offset` within the buffer. The part of
    /// `src` inside the buffer is moved and clipped to the buffer again; the
    /// bytes of each destination row, padding included, take those of the
    /// matching source row. Rows are copied in an order that reads every
    /// source row before it is overwritten. Nothing happens for a zero offset.
    pub fn move_area(&mut self, offset: Point, src: Rectangle)
        requires
            old(self)@.wf(),
            src.wf(),
            fits_i32(offset.x + old(self)@.size.x),
            fits_i32(offset.y + old(self)@.size.y),
        ensures
            final(self)@ == old(self)@.moved(offset, src),
    {
        if offset.x == 0 && offset.y == 0 {
            return;
        }
        let ghost v = self@;
        let area = self.area();
        let a = match src.intersection(area) {
            Some(a) => a,
            None => return ,
        };
        let moved = a.translate(offset);
        let dst = match moved.intersection(area) {
            Some(d) => d,
            None => return ,
        };
        let s_pos = Point { x: dst.pos.x - offset.x, y: dst.pos.y - offset.y };
        let bpp = self.bytes_per_pixel;
        let stride = self.stride;
        proof {
            assert(v.move_dst(offset, src) == Some(dst));
            lemma_move_geometry(v, a, dst, offset);
            lemma_row_indices(v, dst, offset, dst.pos.y as int);
            assert(v.bytes =~= partly_moved(v, dst, offset, dst.pos.y as int, dst.pos.y as int));
            assert(v.bytes =~= partly_moved(v, dst, offset, dst.y_end_spec(), dst.y_end_spec()));
        }
        let line = (dst.size.x * bpp) as usize;
        if dst.pos.y <= s_pos.y {
            let mut dy: i32 = 0;
            while dy < dst.size.y
                invariant
                    0 <= dy <= dst.size.y,
                    v.wf(),
                    v.move_dst(offset, src) == Some(dst),
                    move_geometry(v, dst, offset),
                    offset.y <= 0,
                    s_pos.x == dst.pos.x - offset.x,
                    s_pos.y == dst.pos.y - offset.y,
                    bpp == v.bpp,
                    stride == v.stride,
                    line == dst.size.x * bpp,
                    self@ == v.with_bytes(
                        partly_moved(v, dst, offset, dst.pos.y as int, dst.pos.y + dy),
                    ),
                decreases dst.size.y - dy,
            {
                let y = dst.pos.y + dy;
                proof {
                    lemma_row_indices(v, dst, offset, y as int);
                }
                let dst_idx = ((y * stride + dst.pos.x) * bpp) as usize;
                let src_idx = (((s_pos.y + dy) * stride + s_pos.x) * bpp) as usize;
                let ghost before = self@.bytes;
                copy_bytes_within(&mut self.buffer, src_idx, dst_idx, line);
                proof {
                    lemma_move_row_step(
                        v,
                        dst,
                        offset,
                        dst.pos.y as int,
                        y as int,
                        dst.pos.y as int,
                        y + 1,
                        before,
                        self@.bytes,
                    );
                }
                dy = dy + 1;
            }
        } else {
            let mut dy: i32 = dst.size.y;
            while dy > 0
                invariant
                    0 <= dy <= dst.size.y,
                    v.wf(),
                    v.move_dst(offset, src) == Some(dst),
                    move_geometry(v, dst, offset),
                    offset.y > 0,
                    s_pos.x == dst.pos.x - offset.x,
                    s_pos.y == dst.pos.y - offset.y,
                    bpp == v.bpp,
                    stride == v.stride,
                    line == dst.size.x * bpp,
                    self@ == v.with_bytes(
                        partly_moved(v, dst, offset, dst.pos.y + dy, dst.y_end_spec()),
                    ),
                decreases dy,
            {
                let y = dst.pos.y + dy - 1;
                proof {
                    lemma_row_indices(v, dst, offset, y as int);
                }
                let dst_idx = ((y * stride + dst.pos.x) * bpp) as usize;
                let src_idx = (((s_pos.y + dy - 1) * stride + s_pos.x) * bpp) as usize;
                let ghost before = self@.bytes;
                copy_bytes_within(&mut self.buffer, src_idx, dst_idx, line);
                proof {
                    lemma_move_row_step(
                        v,
                        dst,
                        offset,
                        y + 1,
                        dst.y_end_spec(),
                        y as int,
                        dst.y_end_spec(),
                        before,
                        self@.bytes,
                    );
                }
                dy = dy - 1;
            }
        }
        proof {
            assert(self@.bytes =~= v.moved(offset, src).bytes);
        }
    }
}

/// The bytes of `v` with the rows `ylo <= y < yhi` of `dst` already moved
/// by `offset`.
pub open spec fn partly_moved(v: Canvas, dst: Rectangle, offset: Point, ylo: int, yhi: int) -> Seq<u8> {
    Seq::new(
        v.bytes.len(),
        |k: int|
            if v.in_rows_bytes(dst, ylo, yhi, k) {
                v.bytes[k - v.shift(offset)]
            } else {
                v.bytes[k]
            },
    )
}

/// A non-empty destination inside the buffer whose source, `offset` before
/// it, is inside the buffer too.
pub open spec fn move_geometry(v: Canvas, dst: Rectangle, offset: Point) -> bool {
    &&& 0 <= dst.pos.x < dst.x_end_spec() <= v.size.x
    &&& 0 <= dst.pos.y < dst.y_end_spec() <= v.size.y
    &&& 0 <= dst.pos.x - offset.x
    &&& dst.x_end_spec() - offset.x <= v.size.x
    &&& 0 <= dst.pos.y - offset.y
    &&& dst.y_end_spec() - offset.y <= v.size.y
    &&& dst.wf()
}

/// The destination `move_area` computes lies inside the buffer, and so does
/// its source.
proof fn lemma_move_geometry(v: Canvas, a: Rectangle, dst: Rectangle, offset: Point)
    requires
        v.wf(),
        a.wf(),
        dst.wf(),
        a.pos.x >= 0,
        a.pos.y >= 0,
        a.x_end_spec() <= v.size.x,
        a.y_end_spec() <= v.size.y,
        a.spec_translate(offset).spec_intersection(v.area()) == Some(dst),
        fits_i32(a.pos.x + offset.x),
        fits_i32(a.pos.y + offset.y),
    ensures
        move_geometry(v, dst, offset),
{
}

/// The byte offsets of destination row `y` and of its source row fit in
/// the buffer and in an `i32`.
proof fn lemma_row_indices(v: Canvas, dst: Rectangle, offset: Point, y: int)
    requires
        v.wf(),
        move_geometry(v, dst, offset),
        dst.pos.y <= y < dst.y_end_spec(),
    ensures
        0 <= y * v.stride <= y * v.stride + dst.pos.x,
        (y * v.stride + dst.pos.x) * v.bpp + dst.size.x * v.bpp <= v.stride * v.size.y * v.bpp,
        0 <= (y - offset.y) * v.stride <= (y - offset.y) * v.stride + (dst.pos.x - offset.x),
        ((y - offset.y) * v.stride + (dst.pos.x - offset.x)) * v.bpp + dst.size.x * v.bpp <= v.stride
            * v.size.y * v.bpp,
        0 <= dst.size.x * v.bpp <= v.stride * v.size.y * v.bpp,
        (y * v.stride + dst.pos.x) <= (y * v.stride + dst.pos.x) * v.bpp,
        ((y - offset.y) * v.stride + (dst.pos.x - offset.x)) <= ((y - offset.y) * v.stride + (
        dst.pos.x - offset.x)) * v.bpp,
{
    let pe = Point { x: (dst.x_end_spec() - 1) as i32, y: y as i32 };
    let se = Point { x: (dst.x_end_spec() - 1 - offset.x) as i32, y: (y - offset.y) as i32 };
    lemma_pixel_in_bounds(v, pe);
    lemma_pixel_in_bounds(v, se);
    assert(0 <= y * v.stride) by (nonlinear_arith)
        requires
            0 <= y,
            0 <= v.stride,
    ;
    assert(0 <= (y - offset.y) * v.stride) by (nonlinear_arith)
        requires
            0 <= y - offset.y,
            0 <= v.stride,
    ;
    assert((y * v.stride + dst.pos.x) * v.bpp + dst.size.x * v.bpp == (y * v.stride + (
    dst.x_end_spec() - 1)) * v.bpp + v.bpp) by (nonlinear_arith)
        requires
            dst.x_end_spec() == dst.pos.x + dst.size.x,
    ;
    assert(((y - offset.y) * v.stride + (dst.pos.x - offset.x)) * v.bpp + dst.size.x * v.bpp == ((y
        - offset.y) * v.stride + (dst.x_end_spec() - 1 - offset.x)) * v.bpp + v.bpp)
        by (nonlinear_arith)
        requires
            dst.x_end_spec() == dst.pos.x + dst.size.x,
    ;
    assert(0 <= dst.size.x * v.bpp) by (nonlinear_arith)
        requires
            0 <= dst.size.x,
            0 <= v.bpp,
    ;
    assert((y * v.stride + dst.pos.x) <= (y * v.stride + dst.pos.x) * v.bpp) by (nonlinear_arith)
        requires
            0 <= y * v.stride + dst.pos.x,
            1 <= v.bpp,
    ;
    assert(((y - offset.y) * v.stride + (dst.pos.x - offset.x)) <= ((y - offset.y) * v.stride + (
    dst.pos.x - offset.x)) * v.bpp) by (nonlinear_arith)
        requires
            0 <= (y - offset.y) * v.stride + (dst.pos.x - offset.x),
            1 <= v.bpp,
    ;
    assert(0 <= (y * v.stride + dst.pos.x) * v.bpp) by (nonlinear_arith)
        requires
            0 <= y * v.stride + dst.pos.x,
            1 <= v.bpp,
    ;
}

/// Copying destination row `y` from its source row turns the bytes with
/// rows `olo <= y < ohi` moved into those with rows `nlo <= y < nhi` moved,
/// when the new range is the old one and `y`, and the source row is not
/// among the rows moved before.
proof fn lemma_move_row_step(
    v: Canvas,
    dst: Rectangle,
    offset: Point,
    olo: int,
    ohi: int,
    nlo: int,
    nhi: int,
    before: Seq<u8>,
    after: Seq<u8>,
)
    requires
        v.wf(),
        move_geometry(v, dst, offset),
        before == partly_moved(v, dst, offset, olo, ohi),
        olo <= ohi,
        (nlo == olo && nhi == ohi + 1 && offset.y <= 0) || (nhi == ohi && nlo == olo - 1
            && offset.y > 0),
        dst.pos.y <= (if offset.y <= 0 { ohi } else { nlo }) < dst.y_end_spec(),
        after == copied_within(
            before,
            (((if offset.y <= 0 { ohi } else { nlo }) - offset.y) * v.stride + (dst.pos.x
                - offset.x)) * v.bpp,
            ((if offset.y <= 0 { ohi } else { nlo }) * v.stride + dst.pos.x) * v.bpp,
            dst.size.x * v.bpp,
        ),
    ensures
        after == partly_moved(v, dst, offset, nlo, nhi),
{
    let y = if offset.y <= 0 { ohi } else { nlo };
    let rb = v.row_bytes();
    let bpp = v.bpp;
    let delta = v.shift(offset);
    let a = dst.pos.x * bpp;
    let b = dst.x_end_spec() * bpp;
    let dst_idx = (y * v.stride + dst.pos.x) * bpp;
    let src_idx = ((y - offset.y) * v.stride + (dst.pos.x - offset.x)) * bpp;
    let len = dst.size.x * bpp;
    lemma_row_indices(v, dst, offset, y);
    assert(0 <= src_idx) by (nonlinear_arith)
        requires
            src_idx == ((y - offset.y) * v.stride + (dst.pos.x - offset.x)) * bpp,
            0 <= (y - offset.y) * v.stride + (dst.pos.x - offset.x),
            bpp >= 1,
    ;
    assert(rb > 0) by (nonlinear_arith)
        requires
            rb == v.stride * v.bpp,
            v.stride >= 1,
            v.bpp >= 1,
    ;
    assert(0 <= a <= b <= rb) by (nonlinear_arith)
        requires
            a == dst.pos.x * bpp,
            b == dst.x_end_spec() * bpp,
            rb == v.stride * bpp,
            0 <= dst.pos.x <= dst.x_end_spec() <= v.stride,
            bpp >= 1,
    ;
    assert(dst_idx == y * rb + a && dst_idx + len == y * rb + b) by (nonlinear_arith)
        requires
            dst_idx == (y * v.stride + dst.pos.x) * bpp,
            rb == v.stride * bpp,
            a == dst.pos.x * bpp,
            b == dst.x_end_spec() * bpp,
            len == dst.size.x * bpp,
            dst.x_end_spec() == dst.pos.x + dst.size.x,
    ;
    assert(src_idx - dst_idx == -delta) by (nonlinear_arith)
        requires
            src_idx == ((y - offset.y) * v.stride + (dst.pos.x - offset.x)) * bpp,
            dst_idx == (y * v.stride + dst.pos.x) * bpp,
            delta == offset.y * rb + offset.x * bpp,
            rb == v.stride * bpp,
    ;
    assert forall|k: int| 0 <= k < after.len() implies after[k] == partly_moved(
        v,
        dst,
        offset,
        nlo,
        nhi,
    )[k] by {
        lemma_row_span(rb, y, a, b, k);
        if dst_idx <= k < dst_idx + len {
            assert(k / rb == y && a <= k % rb < b);
            assert(0 <= k % rb - offset.x * bpp < rb) by (nonlinear_arith)
                requires
                    a <= k % rb < b,
                    a == dst.pos.x * bpp,
                    b == dst.x_end_spec() * bpp,
                    rb == v.stride * bpp,
                    0 <= dst.pos.x - offset.x,
                    dst.x_end_spec() - offset.x <= v.stride,
                    bpp >= 1,
            ;
            lemma_shifted_byte(rb, bpp, k, offset.y as int, offset.x as int);
            assert((k - delta) / rb == y - offset.y);
            assert(0 <= k - delta < before.len());
            assert(after[k] == before[k - delta]);
            assert(!v.in_rows_bytes(dst, olo, ohi, k - delta));
            assert(before[k - delta] == v.bytes[k - delta]);
            assert(v.in_rows_bytes(dst, nlo, nhi, k));
        } else {
            assert(after[k] == before[k]);
            assert(v.in_rows_bytes(dst, nlo, nhi, k) == v.in_rows_bytes(dst, olo, ohi, k));
        }
    }
    assert(after =~= partly_moved(v, dst, offset, nlo, nhi));
}


/// The coordinates `draw_box` computes for `area` fit an `i32`.
pub open spec fn box_fits(area: Rectangle) -> bool {
    &&& area.wf()
    &&& fits_i32(area.pos.x + 1)
    &&& fits_i32(area.pos.y + 1)
    &&& fits_i32(area.size.x - 2)
    &&& fits_i32(area.size.y - 2)
    &&& fits_i32(area.x_end_spec() + 1)
    &&& fits_i32(area.y_end_spec() + 1)
    &&& fits_i32(area.x_end_spec() - 1)
    &&& fits_i32(area.y_end_spec() - 1)
}

/// The inside of a box.
pub open spec fn box_inner(area: Rectangle) -> Rectangle {
    Rectangle {
        pos: Point { x: (area.pos.x + 1) as i32, y: (area.pos.y + 1) as i32 },
        size: Point { x: (area.size.x - 2) as i32, y: (area.size.y - 2) as i32 },
    }
}

/// The top edge of a box.
pub open spec fn box_top(area: Rectangle) -> Rectangle {
    Rectangle { pos: area.pos, size: Point { x: area.size.x, y: 1 } }
}

/// The left edge of a box.
pub open spec fn box_left(area: Rectangle) -> Rectangle {
    Rectangle { pos: area.pos, size: Point { x: 1, y: area.size.y } }
}

/// The line just below a box.
pub open spec fn box_bottom(area: Rectangle) -> Rectangle {
    Rectangle {
        pos: Point { x: area.pos.x, y: (area.pos.y + area.size.y) as i32 },
        size: Point { x: area.size.x, y: 1 },
    }
}

/// The line just right of a box.
pub open spec fn box_right(area: Rectangle) -> Rectangle {
    Rectangle {
        pos: Point { x: (area.pos.x + area.size.x) as i32, y: area.pos.y },
        size: Point { x: 1, y: area.size.y },
    }
}

/// The pixels `draw_rect` paints for `rect`: when neither side is zero, the
/// first and last row across its columns and the first and last column
/// across its rows.
pub open spec fn on_outline(rect: Rectangle, q: Point) -> bool {
    let x0 = rect.pos.x as int;
    let y0 = rect.pos.y as int;
    let x1 = rect.x_end_spec();
    let y1 = rect.y_end_spec();
    &&& rect.size.x != 0
    &&& rect.size.y != 0
    &&& ((x0 <= q.x < x1 && (q.y == y0 || q.y == y1 - 1)) || (y0 <= q.y < y1 && (q.x == x0 || q.x
        == x1 - 1)))
}

} // verus!

verus! {

/// Byte `i` of the pixel at `q` lies in row `q.y`, at `q.x * bpp + i`.
proof fn lemma_pixel_byte(v: Canvas, q: Point, i: int)
    requires
        v.wf(),
        v.area().contains_spec(q),
        0 <= i < v.bpp,
    ensures
        (v.offset(q) + i) / v.row_bytes() == q.y,
        (v.offset(q) + i) % v.row_bytes() == q.x * v.bpp + i,
        0 <= v.offset(q) + i,
{
    let rb = v.row_bytes();
    assert(v.offset(q) + i == q.y * rb + (q.x * v.bpp + i)) by (nonlinear_arith)
        requires
            rb == v.stride * v.bpp,
            v.offset(q) == (q.y * v.stride + q.x) * v.bpp,
    ;
    assert(0 <= q.x * v.bpp + i < rb) by (nonlinear_arith)
        requires
            0 <= q.x < v.stride,
            0 <= i < v.bpp,
            rb == v.stride * v.bpp,
    ;
    assert(0 <= q.y * rb) by (nonlinear_arith)
        requires
            0 <= q.y,
            0 <= rb,
    ;
    vstd::arithmetic::div_mod::lemma_fundamental_div_mod_converse(
        v.offset(q) + i,
        rb,
        q.y as int,
        q.x * v.bpp + i,
    );
}

/// Moving an area: each pixel of the destination shows the color the pixel
/// `offset` before it had, and every other pixel keeps its color.
pub proof fn law_move_area_pixels(v: Canvas, offset: Point, src: Rectangle, q: Point)
    requires
        v.wf(),
        src.wf(),
        fits_i32(offset.x + v.size.x),
        fits_i32(offset.y + v.size.y),
    ensures
        v.same_layout(v.moved(offset, src)),
        v.moved(offset, src).wf(),
        v.move_dst(offset, src) matches Some(dst) ==> v.moved(offset, src).color_at(q) == (if dst.contains_spec(q) {
            v.color_at(Point { x: (q.x - offset.x) as i32, y: (q.y - offset.y) as i32 })
        } else {
            v.color_at(q)
        }),
        v.move_dst(offset, src) is None ==> v.moved(offset, src) == v,
{
    let m = v.moved(offset, src);
    if let Some(dst) = v.move_dst(offset, src) {
        let a = src.spec_intersection(v.area()).unwrap();
        lemma_move_geometry(v, a, dst, offset);
        if v.area().contains_spec(q) {
            if dst.contains_spec(q) {
                let p = Point { x: (q.x - offset.x) as i32, y: (q.y - offset.y) as i32 };
                lemma_pixel_in_bounds(v, p);
            }
            let w = v.drawer.width();
            let rb = v.row_bytes();
            assert forall|i: int| 0 <= i < w implies #[trigger] m.bytes[v.offset(q) + i] == (if dst.contains_spec(q) {
                v.bytes[v.offset(q) + i - v.shift(offset)]
            } else {
                v.bytes[v.offset(q) + i]
            }) by {
                lemma_pixel_byte(v, q, i);
                lemma_pixel_in_bounds(v, q);
                let k = v.offset(q) + i;
                assert(dst.pos.x * v.bpp <= q.x * v.bpp + i < dst.x_end_spec() * v.bpp <==> dst.pos.x
                    <= q.x < dst.x_end_spec()) by (nonlinear_arith)
                    requires
                        0 <= i < v.bpp,
                ;
                assert(v.in_rect_bytes(dst, k) == dst.contains_spec(q));
            }
            if dst.contains_spec(q) {
                let p = Point { x: (q.x - offset.x) as i32, y: (q.y - offset.y) as i32 };
                assert(v.area().contains_spec(p));
                assert(v.offset(q) - v.shift(offset) == v.offset(p)) by (nonlinear_arith)
                    requires
                        v.offset(q) == (q.y * v.stride + q.x) * v.bpp,
                        v.offset(p) == (p.y * v.stride + p.x) * v.bpp,
                        v.shift(offset) == offset.y * (v.stride * v.bpp) + offset.x * v.bpp,
                        p.x == q.x - offset.x,
                        p.y == q.y - offset.y,
                ;
                assert forall|i: int| 0 <= i < w implies #[trigger] m.bytes[v.offset(q) + i] == v.bytes[v.offset(p) + i] by {
                    assert(v.offset(q) + i - v.shift(offset) == v.offset(p) + i);
                }
                assert(m.bytes[v.offset(q) + 0] == v.bytes[v.offset(p) + 0]);
                assert(v.offset(q) + 0 == v.offset(q));
                assert(v.offset(p) + 0 == v.offset(p));
                if w == 3 {
                    assert(m.bytes[v.offset(q) + 1] == v.bytes[v.offset(p) + 1]);
                    assert(m.bytes[v.offset(q) + 2] == v.bytes[v.offset(p) + 2]);
                }
                assert(m.color_at(q) == v.color_at(p));
            } else {
                assert(m.bytes[v.offset(q) + 0] == v.bytes[v.offset(q) + 0]);
                assert(v.offset(q) + 0 == v.offset(q));
                if w == 3 {
                    assert(m.bytes[v.offset(q) + 1] == v.bytes[v.offset(q) + 1]);
                    assert(m.bytes[v.offset(q) + 2] == v.bytes[v.offset(q) + 2]);
                }
                assert(m.color_at(q) == v.color_at(q));
            }
        }
    }
}

} // verus!

verus! {

/// The pixels `copy` writes when the other buffer, of size `src_size`, is
/// placed at `pos`: from `pos` clamped to the origin up to its far corner
/// clamped to this buffer.
pub open spec fn copy_rect(v: Canvas, pos: Point, src_size: Point) -> Rectangle {
    let x0 = if pos.x >= 0 { pos.x as int } else { 0 };
    let y0 = if pos.y >= 0 { pos.y as int } else { 0 };
    let x1 = if pos.x + src_size.x <= v.size.x { pos.x + src_size.x } else { v.size.x as int };
    let y1 = if pos.y + src_size.y <= v.size.y { pos.y + src_size.y } else { v.size.y as int };
    Rectangle {
        pos: Point { x: x0 as i32, y: y0 as i32 },
        size: Point { x: (x1 - x0) as i32, y: (y1 - y0) as i32 },
    }
}

impl Canvas {
    /// Byte at which `copy` starts writing.
    pub open spec fn copy_start_index(self, pos: Point, src_size: Point) -> int {
        let r = copy_rect(self, pos, src_size);
        (r.pos.y * self.stride + r.pos.x) * self.bpp
    }

    /// The buffer after `copy` placed `w` at `pos`: row `dy` of the copied
    /// rectangle takes the bytes at the start of row `dy` of `w`.
    pub open spec fn copied(self, pos: Point, w: Canvas) -> Canvas {
        let r = copy_rect(self, pos, w.size);
        let rb = self.row_bytes();
        self.with_bytes(
            Seq::new(
                self.bytes.len(),
                |k: int|
                    if self.in_rect_bytes(r, k) {
                        w.bytes[(k / rb - r.pos.y) * w.row_bytes() + (k % rb - r.pos.x * self.bpp)]
                    } else {
                        self.bytes[k]
                    },
            ),
        )
    }
}

/// Copies the `len` bytes at `src_idx` of `src` to `dst_idx` of `dst`.
fn copy_bytes_from(dst: &mut Vec<u8>, dst_idx: usize, src: &Vec<u8>, src_idx: usize, len: usize)
    requires
        dst_idx + len <= old(dst).len(),
        src_idx + len <= src.len(),
    ensures
        final(dst)@ == Seq::new(
            old(dst)@.len(),
            |k: int|
                if dst_idx <= k < dst_idx + len {
                    src@[k - dst_idx + src_idx]
                } else {
                    old(dst)@[k]
                },
        ),
{
    let ghost start = dst@;
    let mut i: usize = 0;
    while i < len
        invariant
            i <= len,
            dst_idx + len <= dst.len(),
            src_idx + len <= src.len(),
            dst.len() == start.len(),
            dst@ == Seq::new(
                start.len(),
                |k: int|
                    if dst_idx <= k < dst_idx + i {
                        src@[k - dst_idx + src_idx]
                    } else {
                        start[k]
                    },
            ),
        decreases len - i,
    {
        let b = src[src_idx + i];
        dst.set(dst_idx + i, b);
        i = i + 1;
        assert(dst@ =~= Seq::new(
            start.len(),
            |k: int|
                if dst_idx <= k < dst_idx + i {
                    src@[k - dst_idx + src_idx]
                } else {
                    start[k]
                },
        ));
    }
}

/// The bytes of `v` with rows `r.pos.y <= y < yhi` of `r` copied from `w`.
pub open spec fn partly_copied(v: Canvas, w: Canvas, r: Rectangle, yhi: int) -> Seq<u8> {
    let rb = v.row_bytes();
    Seq::new(
        v.bytes.len(),
        |k: int|
            if v.in_rows_bytes(r, r.pos.y as int, yhi, k) {
                w.bytes[(k / rb - r.pos.y) * w.row_bytes() + (k % rb - r.pos.x * v.bpp)]
            } else {
                v.bytes[k]
            },
    )
}

/// The byte after column `x` of row `y`, for a column up to the width,
/// is within the buffer's rows.
proof fn lemma_row_point_bound(v: Canvas, y: int, x: int)
    requires
        v.wf(),
        0 <= y < v.size.y,
        0 <= x <= v.size.x,
    ensures
        0 <= (y * v.stride + x) * v.bpp <= v.stride * v.size.y * v.bpp,
{
    assert(0 <= y * v.stride) by (nonlinear_arith)
        requires
            0 <= y,
            0 <= v.stride,
    ;
    assert(y * v.stride + x <= v.stride * v.size.y) by (nonlinear_arith)
        requires
            0 <= y < v.size.y,
            0 <= x <= v.size.x <= v.stride,
    ;
    assert(0 <= (y * v.stride + x) * v.bpp <= (v.stride * v.size.y) * v.bpp) by (nonlinear_arith)
        requires
            0 <= y * v.stride + x <= v.stride * v.size.y,
            1 <= v.bpp,
    ;
}

/// Copying row `dy` of the copied rectangle extends the copied rows by one.
proof fn lemma_copy_row_step(v: Canvas, w: Canvas, r: Rectangle, dy: int, before: Seq<u8>, after: Seq<u8>)
    requires
        v.wf(),
        w.wf(),
        v.bpp == w.bpp,
        0 <= r.pos.x <= r.x_end_spec() <= v.size.x,
        0 <= r.pos.y,
        0 <= dy,
        r.pos.y + dy < r.y_end_spec() <= v.size.y,
        r.size.x <= w.size.x,
        dy < w.size.y,
        before == partly_copied(v, w, r, r.pos.y + dy),
        after == Seq::new(
            before.len(),
            |k: int|
                if ((r.pos.y + dy) * v.stride + r.pos.x) * v.bpp <= k < ((r.pos.y + dy) * v.stride
                    + r.pos.x) * v.bpp + r.size.x * v.bpp {
                    w.bytes[k - ((r.pos.y + dy) * v.stride + r.pos.x) * v.bpp + v.bpp * dy * w.stride]
                } else {
                    before[k]
                },
        ),
    ensures
        after == partly_copied(v, w, r, r.pos.y + dy + 1),
{
    let y = r.pos.y + dy;
    let rb = v.row_bytes();
    let bpp = v.bpp;
    let a = r.pos.x * bpp;
    let b = r.x_end_spec() * bpp;
    let dst_idx = (y * v.stride + r.pos.x) * bpp;
    let len = r.size.x * bpp;
    if r.size.x == 0 {
        assert(len == 0);
        assert(a == b);
        assert(after =~= before);
        assert(before =~= partly_copied(v, w, r, y + 1));
        return ;
    }
    assert(rb > 0) by (nonlinear_arith)
        requires
            rb == v.stride * v.bpp,
            v.stride >= 1,
            v.bpp >= 1,
    ;
    assert(0 <= a <= b <= rb) by (nonlinear_arith)
        requires
            a == r.pos.x * bpp,
            b == r.x_end_spec() * bpp,
            rb == v.stride * bpp,
            0 <= r.pos.x <= r.x_end_spec() <= v.stride,
            bpp >= 1,
    ;
    assert(dst_idx == y * rb + a && dst_idx + len == y * rb + b) by (nonlinear_arith)
        requires
            dst_idx == (y * v.stride + r.pos.x) * bpp,
            rb == v.stride * bpp,
            a == r.pos.x * bpp,
            b == r.x_end_spec() * bpp,
            len == r.size.x * bpp,
            r.x_end_spec() == r.pos.x + r.size.x,
    ;
    assert forall|k: int| 0 <= k < after.len() implies after[k] == partly_copied(v, w, r, y + 1)[k] by {
        lemma_row_span(rb, y, a, b, k);
        if dst_idx <= k < dst_idx + len {
            assert(k / rb == y && a <= k % rb < b);
            let j = k % rb - a;
            vstd::arithmetic::div_mod::lemma_fundamental_div_mod(k, rb);
            assert(rb * (k / rb) == y * rb) by (nonlinear_arith)
                requires
                    k / rb == y,
            ;
            assert(k - dst_idx == j);
            assert(bpp * dy * w.stride == dy * w.row_bytes()) by (nonlinear_arith)
                requires
                    bpp == w.bpp,
            ;
            assert(v.in_rows_bytes(r, r.pos.y as int, y + 1, k));
        } else {
            assert(v.in_rows_bytes(r, r.pos.y as int, y + 1, k) == v.in_rows_bytes(
                r,
                r.pos.y as int,
                y,
                k,
            ));
        }
    }
    assert(after =~= partly_copied(v, w, r, y + 1));
}

impl BufferDrawer {
    /// Copies `src` into this buffer with its top-left corner at `pos`,
    /// clipped to this buffer. Row `dy` of the copied rectangle takes the
    /// bytes at the start of row `dy` of `src`, also where `pos` is negative.
    pub fn copy(&mut self, pos: Point, src: &BufferDrawer)
        requires
            old(self)@.wf(),
            src@.wf(),
            old(self)@.pixel_format == src@.pixel_format,
            old(self)@.bpp == src@.bpp,
            fits_i32(pos.x + src@.size.x),
            fits_i32(pos.y + src@.size.y),
            copy_rect(old(self)@, pos, src@.size).size.y > 0 ==> copy_rect(
                old(self)@,
                pos,
                src@.size,
            ).size.x >= 0,
            old(self)@.copy_start_index(pos, src@.size) <= old(self)@.bytes.len(),
            old(self)@.copy_start_index(pos, src@.size) <= i32::MAX,
        ensures
            final(self)@ == old(self)@.copied(pos, src@),
    {
        let ghost v = self@;
        let ghost w = src@;
        let dst_size = self.size;
        let src_size = src.size;
        let copy_start_dst = Point::elem_max(pos, Point { x: 0, y: 0 });
        let copy_end_dst = Point::elem_min(
            Point { x: pos.x + src_size.x, y: pos.y + src_size.y },
            dst_size,
        );
        let ghost r = copy_rect(v, pos, w.size);
        assert(r.pos == copy_start_dst);
        let stride = self.stride;
        let bpp = self.bytes_per_pixel;
        let rows = copy_end_dst.y - copy_start_dst.y;
        let cols = copy_end_dst.x - copy_start_dst.x;
        proof {
            assert(0 <= copy_start_dst.y * stride) by (nonlinear_arith)
                requires
                    0 <= copy_start_dst.y,
                    0 <= stride,
            ;
            assert(copy_start_dst.y * stride + copy_start_dst.x <= (copy_start_dst.y * stride
                + copy_start_dst.x) * bpp) by (nonlinear_arith)
                requires
                    0 <= copy_start_dst.y * stride + copy_start_dst.x,
                    1 <= bpp,
            ;
            assert(stride * copy_start_dst.y == copy_start_dst.y * stride) by (nonlinear_arith);
            assert(bpp * (stride * copy_start_dst.y + copy_start_dst.x) == (copy_start_dst.y * stride
                + copy_start_dst.x) * bpp) by (nonlinear_arith);
        }
        let dst_start_idx = (bpp * (stride * copy_start_dst.y + copy_start_dst.x)) as usize;
        proof {
            assert(bpp * (stride * copy_start_dst.y + copy_start_dst.x) == (copy_start_dst.y * stride
                + copy_start_dst.x) * bpp) by (nonlinear_arith);
            assert(self@.bytes =~= partly_copied(v, w, r, r.pos.y as int));
        }
        if rows <= 0 {
            proof {
                assert(self@.bytes =~= v.copied(pos, w).bytes);
            }
            return ;
        }
        proof {
            assert(0 <= cols * bpp <= stride * bpp) by (nonlinear_arith)
                requires
                    0 <= cols <= stride,
                    1 <= bpp,
            ;
            assert(stride * bpp <= stride * v.size.y * bpp) by (nonlinear_arith)
                requires
                    1 <= v.size.y,
                    0 <= stride,
                    1 <= bpp,
            ;
            assert(cols * bpp <= i32::MAX);
        }
        let line = (cols * bpp) as usize;
        let mut dy: i32 = 0;
        while dy < rows
            invariant
                0 <= dy <= rows,
                v.wf(),
                w.wf(),
                v.bpp == w.bpp,
                self@.same_layout(v),
                src@ == w,
                stride == v.stride,
                bpp == v.bpp,
                r == copy_rect(v, pos, w.size),
                r.pos == copy_start_dst,
                rows == r.size.y,
                cols == r.size.x,
                0 <= r.pos.x <= r.x_end_spec() <= v.size.x,
                0 <= r.pos.y,
                r.y_end_spec() <= v.size.y,
                r.size.x <= w.size.x,
                r.size.y <= w.size.y,
                dst_start_idx == (r.pos.y * v.stride + r.pos.x) * v.bpp,
                line == cols * bpp,
                self@.bytes == partly_copied(v, w, r, r.pos.y + dy),
            decreases rows - dy,
        {
            let ghost y = r.pos.y + dy;
            proof {
                lemma_row_point_bound(v, y, r.x_end_spec());
                lemma_row_point_bound(w, dy as int, r.size.x as int);
                assert((y * v.stride + r.pos.x) * bpp == dst_start_idx + bpp * dy * stride)
                    by (nonlinear_arith)
                    requires
                        dst_start_idx == (r.pos.y * v.stride + r.pos.x) * v.bpp,
                        y == r.pos.y + dy,
                        bpp == v.bpp,
                        stride == v.stride,
                ;
                assert((y * v.stride + r.pos.x) * bpp + cols * bpp == (y * v.stride + r.x_end_spec())
                    * bpp) by (nonlinear_arith)
                    requires
                        r.x_end_spec() == r.pos.x + cols,
                ;
                assert(bpp * dy * w.stride + cols * bpp == (dy * w.stride + r.size.x) * bpp)
                    by (nonlinear_arith)
                    requires
                        r.size.x == cols,
                ;
                assert(0 <= bpp * dy * stride) by (nonlinear_arith)
                    requires
                        0 <= dy,
                        0 <= stride,
                        1 <= bpp,
                ;
                assert(0 <= bpp * dy * w.stride) by (nonlinear_arith)
                    requires
                        0 <= dy,
                        0 <= w.stride,
                        1 <= bpp,
                ;
                assert(bpp * dy * stride <= (y * v.stride + r.pos.x) * bpp);
                assert(0 <= bpp * dy <= v.size.y * bpp) by (nonlinear_arith)
                    requires
                        0 <= dy < v.size.y,
                        1 <= bpp,
                ;
            }
            let dst_idx = dst_start_idx + (bpp * dy * stride) as usize;
            let src_idx = (bpp * dy * src.stride) as usize;
            let ghost before = self@.bytes;
            copy_bytes_from(&mut self.buffer, dst_idx, &src.buffer, src_idx, line);
            proof {
                lemma_copy_row_step(v, w, r, dy as int, before, self@.bytes);
            }
            dy = dy + 1;
        }
        proof {
            assert(self@.bytes =~= v.copied(pos, w).bytes);
        }
    }
}

} // verus!

verus! {

impl BufferDrawer {
    /// A copy of the buffer.
    pub fn clone_drawer(&self) -> (r: BufferDrawer)
        ensures
            r@ == self@,
    {
        let mut bytes: Vec<u8> = Vec::new();
        let mut i: usize = 0;
        while i < self.buffer.len()
            invariant
                i <= self.buffer@.len(),
                bytes@ == self.buffer@.subrange(0, i as int),
            decreases self.buffer@.len() - i,
        {
            bytes.push(self.buffer[i]);
            i = i + 1;
        }
        assert(self.buffer@.subrange(0, self.buffer@.len() as int) == self.buffer@);
        BufferDrawer {
            size: self.size,
            stride: self.stride,
            bytes_per_pixel: self.bytes_per_pixel,
            pixel_format: self.pixel_format,
            pixel_drawer: self.pixel_drawer,
            buffer: bytes,
        }
    }
}

} // verus!
