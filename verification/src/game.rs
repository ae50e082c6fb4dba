//! The user-space game: its frame buffer, filled rectangles, and the state
//! it keeps from frame to frame.
use crate::vga::Rgb;
use vstd::arithmetic::div_mod::{
    lemma_div_is_ordered, lemma_fundamental_div_mod, lemma_fundamental_div_mod_converse,
    lemma_mod_pos_bound,
};
use vstd::prelude::*;

verus! {

/// Screen pixels per metre of the game world.
pub const PIXELS_PER_METER: usize = 50;

/// What the game keeps from one frame to the next.
pub struct State {
    initialized: bool,
}

impl State {
    pub closed spec fn spec_initialized(&self) -> bool {
        self.initialized
    }
}

impl Default for State {
    /// A game that has not drawn its first frame.
    fn default() -> (r: Self)
        ensures
            !r.spec_initialized(),
    {
        State { initialized: false }
    }
}

/// Pixels in rows of `width`, `bpp` bytes each, blue first; rows follow
/// each other without gaps.
pub struct Framebuffer {
    width: usize,
    height: usize,
    bpp: usize,
    size: usize,
    byte_len: usize,
    data: Vec<u8>,
}

impl Framebuffer {
    pub closed spec fn spec_width(&self) -> usize {
        self.width
    }

    pub closed spec fn spec_height(&self) -> usize {
        self.height
    }

    pub closed spec fn spec_bpp(&self) -> usize {
        self.bpp
    }

    pub closed spec fn spec_size(&self) -> usize {
        self.size
    }

    pub closed spec fn spec_byte_len(&self) -> usize {
        self.byte_len
    }

    pub closed spec fn spec_data(&self) -> Seq<u8> {
        self.data@
    }

    /// A frame buffer of `width` by `height` pixels of `bpp` bytes over
    /// `data`; its pixel count and byte length must fit in a `usize`.
    pub fn new(width: usize, height: usize, bpp: usize, data: Vec<u8>) -> (r: Self)
        requires
            width * height <= usize::MAX,
            width * height * bpp <= usize::MAX,
        ensures
            r.spec_width() == width,
            r.spec_height() == height,
            r.spec_bpp() == bpp,
            r.spec_size() == width * height,
            r.spec_byte_len() == width * height * bpp,
            r.spec_data() == data@,
    {
        let size = width * height;
        Self { width, height, bpp, size, byte_len: size * bpp, data }
    }

    /// The width in pixels.
    pub fn width(&self) -> (r: usize)
        ensures
            r == self.spec_width(),
    {
        self.width
    }

    /// The height in pixels.
    pub fn height(&self) -> (r: usize)
        ensures
            r == self.spec_height(),
    {
        self.height
    }

    /// The bytes per pixel.
    pub fn bpp(&self) -> (r: usize)
        ensures
            r == self.spec_bpp(),
    {
        self.bpp
    }

    /// The number of pixels.
    pub fn size(&self) -> (r: usize)
        ensures
            r == self.spec_size(),
    {
        self.size
    }

    /// The number of pixel bytes.
    pub fn byte_len(&self) -> (r: usize)
        ensures
            r == self.spec_byte_len(),
    {
        self.byte_len
    }

    /// The pixel bytes, row by row.
    pub fn data(&self) -> (r: &Vec<u8>)
        ensures
            r@ == self.spec_data(),
    {
        &self.data
    }

    /// The pixel bytes, row by row.
    pub fn into_data(self) -> (r: Vec<u8>)
        ensures
            r@ == self.spec_data(),
    {
        self.data
    }
}

/// `c` stored at byte `at`: blue, green, red.
pub open spec fn paint_pixel(data: Seq<u8>, at: int, c: Rgb) -> Seq<u8> {
    data.update(at, c.blue).update(at + 1, c.green).update(at + 2, c.red)
}

/// The first `k` pixels from column `x` of the row starting at byte
/// `row_start`, painted left to right.
pub open spec fn paint_row(data: Seq<u8>, row_start: int, x: int, bpp: int, k: nat, c: Rgb) -> Seq<u8>
    decreases k,
{
    if k == 0 {
        data
    } else {
        paint_pixel(paint_row(data, row_start, x, bpp, (k - 1) as nat, c), row_start + (x + k - 1) * bpp, c)
    }
}

/// The first `h` rows from row `y` of a `w`-pixel wide rectangle at column
/// `x`, painted top to bottom; rows are `row_bytes` long.
pub open spec fn paint_rect(
    data: Seq<u8>,
    row_bytes: int,
    bpp: int,
    x: int,
    y: int,
    w: nat,
    h: nat,
    c: Rgb,
) -> Seq<u8>
    decreases h,
{
    if h == 0 {
        data
    } else {
        paint_row(paint_rect(data, row_bytes, bpp, x, y, w, (h - 1) as nat, c), (y + h - 1) * row_bytes, x, bpp, w, c)
    }
}

/// Colour byte `j` of a pixel: blue, green, then red.
pub open spec fn channel(c: Rgb, j: int) -> u8 {
    if j == 0 {
        c.blue
    } else if j == 1 {
        c.green
    } else {
        c.red
    }
}

/// Whether byte `i` of pixel rows `row_bytes` long is one of the three
/// colour bytes of a pixel of the `w` by `h` rectangle at (`x`, `y`).
pub open spec fn in_rect(i: int, row_bytes: int, bpp: int, x: int, y: int, w: int, h: int) -> bool {
    &&& y <= i / row_bytes < y + h
    &&& x <= (i % row_bytes) / bpp < x + w
    &&& (i % row_bytes) % bpp < 3
}

/// `data` with the rectangle filled with `c`: each colour byte of each of
/// its pixels holds its channel of `c`, every other byte is unchanged.
pub open spec fn rect_filled(
    data: Seq<u8>,
    row_bytes: int,
    bpp: int,
    x: int,
    y: int,
    w: int,
    h: int,
    c: Rgb,
) -> Seq<u8> {
    Seq::new(
        data.len(),
        |i: int|
            if in_rect(i, row_bytes, bpp, x, y, w, h) {
                channel(c, (i % row_bytes) % bpp)
            } else {
                data[i]
            },
    )
}

/// Painting `k` pixels of a row sets the colour bytes of those pixels and
/// nothing else, when pixels are at least three bytes apart.
proof fn lemma_paint_row_pixels(data: Seq<u8>, rs: int, x: int, bpp: int, k: nat, c: Rgb)
    requires
        bpp >= 3,
        0 <= rs,
        0 <= x,
        k > 0 ==> rs + (x + k - 1) * bpp + 2 < data.len(),
    ensures
        paint_row(data, rs, x, bpp, k, c).len() == data.len(),
        forall|i: int|
            0 <= i < data.len() ==> #[trigger] paint_row(data, rs, x, bpp, k, c)[i] == if rs <= i && x
                <= (i - rs) / bpp < x + k && (i - rs) % bpp < 3 {
                channel(c, (i - rs) % bpp)
            } else {
                data[i]
            },
    decreases k,
{
    if k > 0 {
        let k1 = (k - 1) as nat;
        assert(k1 > 0 ==> rs + (x + k1 - 1) * bpp + 2 < data.len()) by (nonlinear_arith)
            requires
                rs + (x + k - 1) * bpp + 2 < data.len(),
                k1 == k - 1,
                bpp >= 3,
        ;
        lemma_paint_row_pixels(data, rs, x, bpp, k1, c);
        let at = rs + (x + k - 1) * bpp;
        assert(at >= rs) by (nonlinear_arith)
            requires
                at == rs + (x + k - 1) * bpp,
                x >= 0,
                k >= 1,
                bpp >= 3,
        ;
        assert forall|i: int| 0 <= i < data.len() implies #[trigger] paint_row(
            data,
            rs,
            x,
            bpp,
            k,
            c,
        )[i] == if rs <= i && x <= (i - rs) / bpp < x + k && (i - rs) % bpp < 3 {
            channel(c, (i - rs) % bpp)
        } else {
            data[i]
        } by {
            if rs <= i {
                let q = (i - rs) / bpp;
                let r = (i - rs) % bpp;
                lemma_fundamental_div_mod(i - rs, bpp);
                lemma_mod_pos_bound(i - rs, bpp);
                if at <= i < at + 3 {
                    lemma_fundamental_div_mod_converse(i - rs, bpp, x + k - 1, i - at);
                } else if q == x + k - 1 {
                    assert(r == i - at) by (nonlinear_arith)
                        requires
                            i - rs == bpp * q + r,
                            q == x + k - 1,
                            at == rs + (x + k - 1) * bpp,
                    ;
                }
            }
        }
    }
}

/// Painting a rectangle row by row, pixel by pixel, fills it: each colour
/// byte of its pixels holds its channel of the colour and every other byte
/// is unchanged, when pixels are at least three bytes long.
pub proof fn lemma_paint_rect_fills(
    data: Seq<u8>,
    width: int,
    bpp: int,
    x: int,
    y: int,
    w: nat,
    h: nat,
    c: Rgb,
)
    requires
        bpp >= 3,
        0 <= x,
        0 <= y,
        x + w <= width,
        w > 0 && h > 0 ==> (y + h - 1) * (width * bpp) + (x + w - 1) * bpp + 2 < data.len(),
    ensures
        paint_rect(data, width * bpp, bpp, x, y, w, h, c) == rect_filled(
            data,
            width * bpp,
            bpp,
            x,
            y,
            w as int,
            h as int,
            c,
        ),
    decreases h,
{
    let rb = width * bpp;
    let filled = rect_filled(data, rb, bpp, x, y, w as int, h as int, c);
    if h == 0 {
        assert(paint_rect(data, rb, bpp, x, y, w, h, c) =~= filled);
    } else {
        let h1 = (h - 1) as nat;
        if w > 0 {
            assert(h1 > 0 ==> (y + h1 - 1) * rb + (x + w - 1) * bpp + 2 < data.len()) by (nonlinear_arith)
                requires
                    (y + h - 1) * rb + (x + w - 1) * bpp + 2 < data.len(),
                    h1 == h - 1,
                    rb == width * bpp,
                    width >= 0,
                    bpp >= 3,
            ;
        }
        lemma_paint_rect_fills(data, width, bpp, x, y, w, h1, c);
        let prev = paint_rect(data, rb, bpp, x, y, w, h1, c);
        let rs = (y + h - 1) * rb;
        assert(rs >= 0 && rb >= 0) by (nonlinear_arith)
            requires
                rs == (y + h - 1) * rb,
                rb == width * bpp,
                y >= 0,
                h >= 1,
                width >= 0,
                bpp >= 3,
        ;
        lemma_paint_row_pixels(prev, rs, x, bpp, w, c);
        let painted = paint_rect(data, rb, bpp, x, y, w, h, c);
        if w == 0 {
            assert(painted =~= filled);
        } else {
            assert(rb > 0) by (nonlinear_arith)
                requires
                    rb == width * bpp,
                    width >= 1,
                    bpp >= 3,
            ;
            assert(rb / bpp == width) by {
                lemma_fundamental_div_mod_converse(rb, bpp, width, 0);
            }
            assert forall|i: int| 0 <= i < data.len() implies #[trigger] painted[i] == filled[i] by {
                lemma_fundamental_div_mod(i, rb);
                lemma_mod_pos_bound(i, rb);
                if rs <= i < rs + rb {
                    lemma_fundamental_div_mod_converse(i, rb, y + h - 1, i - rs);
                } else if i >= rs + rb {
                    lemma_div_is_ordered(rb, i - rs, bpp);
                    assert(i / rb != y + h - 1) by (nonlinear_arith)
                        requires
                            i == rb * (i / rb) + i % rb,
                            i % rb < rb,
                            i >= rs + rb,
                            rs == (y + h - 1) * rb,
                    ;
                } else {
                    assert(i / rb != y + h - 1) by (nonlinear_arith)
                        requires
                            i == rb * (i / rb) + i % rb,
                            i % rb >= 0,
                            i < rs,
                            rs == (y + h - 1) * rb,
                    ;
                }
            }
            assert(painted =~= filled);
        }
    }
}

/// Fills the rectangle of `w` by `h` pixels at (`x`, `y`) with `c`: each
/// row from the top, each pixel from the left, blue, green and red go to
/// the pixel's first three bytes. The rectangle must lie inside the
/// buffer, pixels must have at least one byte, a row's byte length must
/// fit in a `usize`, and the last pixel's third byte must lie in the data.
pub fn draw_rect(framebuffer: &mut Framebuffer, x: usize, y: usize, w: usize, h: usize, c: Rgb)
    requires
        x + w <= old(framebuffer).spec_width(),
        y + h <= old(framebuffer).spec_height(),
        old(framebuffer).spec_bpp() > 0,
        old(framebuffer).spec_width() * old(framebuffer).spec_bpp() <= usize::MAX,
        w > 0 && h > 0 ==> (y + h - 1) * (old(framebuffer).spec_width() * old(framebuffer).spec_bpp())
            + (x + w - 1) * old(framebuffer).spec_bpp() + 2 < old(framebuffer).spec_data().len(),
    ensures
        final(framebuffer).spec_width() == old(framebuffer).spec_width(),
        final(framebuffer).spec_height() == old(framebuffer).spec_height(),
        final(framebuffer).spec_bpp() == old(framebuffer).spec_bpp(),
        final(framebuffer).spec_size() == old(framebuffer).spec_size(),
        final(framebuffer).spec_byte_len() == old(framebuffer).spec_byte_len(),
        final(framebuffer).spec_data() == paint_rect(
            old(framebuffer).spec_data(),
            old(framebuffer).spec_width() * old(framebuffer).spec_bpp(),
            old(framebuffer).spec_bpp() as int,
            x as int,
            y as int,
            w as nat,
            h as nat,
            c,
        ),
        old(framebuffer).spec_bpp() >= 3 ==> final(framebuffer).spec_data() == rect_filled(
            old(framebuffer).spec_data(),
            old(framebuffer).spec_width() * old(framebuffer).spec_bpp(),
            old(framebuffer).spec_bpp() as int,
            x as int,
            y as int,
            w as int,
            h as int,
            c,
        ),
{
    let bpp = framebuffer.bpp;
    let buffer_width = framebuffer.width * bpp;
    let ghost start = framebuffer.data@;
    let len = framebuffer.data.len();
    let ghost width = framebuffer.width;
    let ghost height = framebuffer.height;
    let ghost size = framebuffer.size;
    let ghost byte_len = framebuffer.byte_len;
    proof {
        assert((x + w) * bpp <= framebuffer.width * bpp) by (nonlinear_arith)
            requires
                x + w <= framebuffer.width,
        ;
        assert((x + w) * bpp == x * bpp + w * bpp) by (nonlinear_arith);
    }
    let row_start_x = x * bpp;
    let row_end_x = row_start_x + w * bpp;
    let mut yi = y;
    while yi < y + h
        invariant
            y <= yi <= y + h,
            y + h <= height,
            width == framebuffer.width,
            height == framebuffer.height,
            size == framebuffer.size,
            byte_len == framebuffer.byte_len,
            bpp == framebuffer.bpp,
            bpp > 0,
            buffer_width == framebuffer.width * bpp,
            row_start_x == x * bpp,
            row_end_x == (x + w) * bpp,
            framebuffer.data@.len() == len,
            w > 0 && h > 0 ==> (y + h - 1) * buffer_width + (x + w - 1) * bpp + 2 < len,
            framebuffer.data@ == paint_rect(
                start,
                buffer_width as int,
                bpp as int,
                x as int,
                y as int,
                w as nat,
                (yi - y) as nat,
                c,
            ),
        decreases y + h - yi,
    {
        let ghost before_row = framebuffer.data@;
        proof {
            assert(yi * buffer_width <= (y + h - 1) * buffer_width) by (nonlinear_arith)
                requires
                    yi <= y + h - 1,
            ;
        }
        let mut xi = row_start_x;
        let ghost mut k: int = 0;
        while xi < row_end_x
            invariant
                y <= yi < y + h,
                y + h <= height,
                width == framebuffer.width,
                height == framebuffer.height,
                size == framebuffer.size,
                byte_len == framebuffer.byte_len,
                bpp == framebuffer.bpp,
                bpp > 0,
                buffer_width == framebuffer.width * bpp,
                row_start_x == x * bpp,
                row_end_x == (x + w) * bpp,
                0 <= k <= w,
                xi == (x + k) * bpp,
                framebuffer.data@.len() == len,
                w > 0 ==> (y + h - 1) * buffer_width + (x + w - 1) * bpp + 2 < len,
                yi * buffer_width <= (y + h - 1) * buffer_width,
                framebuffer.data@ == paint_row(
                    before_row,
                    yi * buffer_width,
                    x as int,
                    bpp as int,
                    k as nat,
                    c,
                ),
            decreases row_end_x - xi,
        {
            proof {
                assert(k < w) by (nonlinear_arith)
                    requires
                        (x + k) * bpp < (x + w) * bpp,
                        bpp > 0,
                ;
                assert((x + k) * bpp <= (x + w - 1) * bpp) by (nonlinear_arith)
                    requires
                        k <= w - 1,
                        bpp > 0,
                ;
            }
            let at = yi * buffer_width + xi;
            framebuffer.data.set(at, c.blue);
            framebuffer.data.set(at + 1, c.green);
            framebuffer.data.set(at + 2, c.red);
            proof {
                assert((x + k + 1) * bpp == (x + k) * bpp + bpp) by (nonlinear_arith);
                assert((x + k + 1) * bpp <= (x + w) * bpp) by (nonlinear_arith)
                    requires
                        k + 1 <= w,
                        bpp > 0,
                ;
                assert(x + (k + 1) - 1 == x + k);
            }
            xi = xi + bpp;
            proof {
                k = k + 1;
            }
        }
        proof {
            assert(k >= w) by (nonlinear_arith)
                requires
                    (x + k) * bpp >= (x + w) * bpp,
                    bpp > 0,
            ;
            assert(yi + 1 - y - 1 == yi - y);
            assert(y + (yi + 1 - y) - 1 == yi);
        }
        yi = yi + 1;
    }
    proof {
        if bpp >= 3 {
            lemma_paint_rect_fills(start, width as int, bpp as int, x as int, y as int, w as nat, h as nat, c);
        }
    }
}

/// Draws one frame: marks the game started on its first frame, then
/// clears the whole buffer to black. Pixels must have at least one byte,
/// and the three colour bytes of the last pixel must lie in the data.
pub fn update_and_render(state: &mut State, buffer: &mut Framebuffer)
    requires
        old(buffer).spec_bpp() > 0,
        old(buffer).spec_width() * old(buffer).spec_bpp() <= usize::MAX,
        old(buffer).spec_width() > 0 && old(buffer).spec_height() > 0 ==> (old(buffer).spec_height()
            - 1) * (old(buffer).spec_width() * old(buffer).spec_bpp()) + (old(buffer).spec_width() - 1)
            * old(buffer).spec_bpp() + 2 < old(buffer).spec_data().len(),
    ensures
        final(state).spec_initialized(),
        final(buffer).spec_width() == old(buffer).spec_width(),
        final(buffer).spec_height() == old(buffer).spec_height(),
        final(buffer).spec_bpp() == old(buffer).spec_bpp(),
        final(buffer).spec_data() == paint_rect(
            old(buffer).spec_data(),
            old(buffer).spec_width() * old(buffer).spec_bpp(),
            old(buffer).spec_bpp() as int,
            0,
            0,
            old(buffer).spec_width() as nat,
            old(buffer).spec_height() as nat,
            Rgb { red: 0, green: 0, blue: 0 },
        ),
        old(buffer).spec_bpp() >= 3 ==> final(buffer).spec_data() == rect_filled(
            old(buffer).spec_data(),
            old(buffer).spec_width() * old(buffer).spec_bpp(),
            old(buffer).spec_bpp() as int,
            0,
            0,
            old(buffer).spec_width() as int,
            old(buffer).spec_height() as int,
            Rgb { red: 0, green: 0, blue: 0 },
        ),
{
    if !state.initialized {
        state.initialized = true;
    }
    let bw = buffer.width;
    let bh = buffer.height;
    draw_rect(buffer, 0, 0, bw, bh, Rgb { red: 0, green: 0, blue: 0 });
}

} // verus!
