//! Linear framebuffer graphics. The screen is held as a grid of colours, row by row;
//! `pixel_offset` and `pixel_bytes` say where and how a pixel lands in video memory.

use vstd::prelude::*;

verus! {

/// Order of the colour bytes of a pixel.
#[derive(Debug, Clone, Copy, PartialEq, Eq, Structural)]
pub enum PixelFormat {
    RGB,
    BGR,
}

/// What the firmware tells of the framebuffer.
#[derive(Debug, Clone, Copy)]
pub struct FramebufferInfo {
    pub addr: usize,
    pub width: usize,
    pub height: usize,
    pub bytes_per_pixel: usize,
    pub stride: usize,
    pub format: PixelFormat,
}

/// A colour.
#[derive(Debug, Clone, Copy, PartialEq, Eq, Structural)]
pub struct Color {
    pub r: u8,
    pub g: u8,
    pub b: u8,
}

impl Color {
    /// The colour with these components.
    pub fn new(r: u8, g: u8, b: u8) -> (c: Color)
        ensures
            c == (Color { r, g, b }),
    {
        Color { r, g, b }
    }
}

/// The framebuffer and what is on it: `pixels[y * width + x]` is the colour at (x, y).
pub struct Framebuffer {
    pub info: FramebufferInfo,
    pub pixels: Vec<Color>,
}

impl Framebuffer {
    /// The grid covers the screen.
    pub open spec fn wf(&self) -> bool {
        self.pixels@.len() == self.info.width * self.info.height
    }
}

/// The byte offset of pixel (x, y) in video memory.
pub fn pixel_offset(info: &FramebufferInfo, x: usize, y: usize) -> (off: usize)
    requires
        y * info.stride + x * info.bytes_per_pixel <= usize::MAX,
    ensures
        off == y * info.stride + x * info.bytes_per_pixel,
{
    assert(0 <= y * info.stride && 0 <= x * info.bytes_per_pixel) by (nonlinear_arith);
    y * info.stride + x * info.bytes_per_pixel
}

/// The three bytes of a pixel, in the framebuffer's order.
pub fn pixel_bytes(format: PixelFormat, color: Color) -> (b: [u8; 3])
    ensures
        format == PixelFormat::RGB ==> b@ == seq![color.r, color.g, color.b],
        format == PixelFormat::BGR ==> b@ == seq![color.b, color.g, color.r],
{
    let b = match format {
        PixelFormat::RGB => [color.r, color.g, color.b],
        PixelFormat::BGR => [color.b, color.g, color.r],
    };
    assert(format == PixelFormat::RGB ==> b@ =~= seq![color.r, color.g, color.b]);
    assert(format == PixelFormat::BGR ==> b@ =~= seq![color.b, color.g, color.r]);
    b
}

/// Whether a framebuffer has been set up.
pub fn is_available(fb: &Option<Framebuffer>) -> (b: bool)
    ensures
        b == fb is Some,
{
    fb.is_some()
}

/// The framebuffer's description, if it has been set up.
pub fn info(fb: &Option<Framebuffer>) -> (i: Option<FramebufferInfo>)
    ensures
        match *fb {
            Some(f) => i == Some(f.info),
            None => i is None,
        },
{
    match fb {
        Some(f) => Some(f.info),
        None => None,
    }
}

/// Point (px, py) lies in the box of size (w, h) at (x, y).
pub open spec fn in_box(px: int, py: int, x: int, y: int, w: int, h: int) -> bool {
    x <= px < x + w && y <= py < y + h
}

/// The grid with the part of a box that is on screen painted `c`.
pub open spec fn paint_box(old: Seq<Color>, fw: int, x: int, y: int, w: int, h: int, c: Color) -> Seq<Color> {
    Seq::new(old.len(), |i: int| if in_box(i % fw, i / fw, x, y, w, h) { c } else { old[i] })
}

/// Whether bit `dx` of a glyph row, counted from the left, is set.
pub open spec fn glyph_bit(row: u8, dx: int) -> bool {
    (row >> ((7 - dx) as u8)) & 1 == 1
}

/// The glyph of `c` in `font`: characters past 127 take glyph 127.
pub open spec fn glyph_of(font: Seq<[u8; 8]>, c: char) -> [u8; 8] {
    if (c as int) < 127 { font[c as int] } else { font[127] }
}

/// The grid with an 8x8 glyph drawn at (x, y), set bits in `fg`, others in `bg`.
pub open spec fn glyph_box(old: Seq<Color>, fw: int, x: int, y: int, glyph: [u8; 8], fg: Color, bg: Color) -> Seq<Color> {
    Seq::new(old.len(), |i: int|
        if in_box(i % fw, i / fw, x, y, 8, 8) {
            if glyph_bit(glyph@[i / fw - y], i % fw - x) { fg } else { bg }
        } else {
            old[i]
        })
}

/// The grid with a string drawn from (x, y): each character but newline as a glyph,
/// eight pixels right of the one before.
pub open spec fn text_box(old: Seq<Color>, fw: int, x: int, y: int, cs: Seq<char>, fg: Color, bg: Color, font: Seq<[u8; 8]>) -> Seq<Color>
    decreases cs.len(),
{
    if cs.len() == 0 {
        old
    } else if cs[0] == '\n' {
        text_box(old, fw, x, y, cs.drop_first(), fg, bg, font)
    } else {
        text_box(glyph_box(old, fw, x, y, glyph_of(font, cs[0]), fg, bg), fw, x + 8, y, cs.drop_first(), fg, bg, font)
    }
}

proof fn lemma_cell(w: int, h: int, x: int, y: int)
    requires
        0 <= x < w,
        0 <= y < h,
    ensures
        (y * w + x) % w == x,
        (y * w + x) / w == y,
        0 <= y * w + x < w * h,
{
    vstd::arithmetic::div_mod::lemma_fundamental_div_mod_converse(y * w + x, w, y, x);
    assert(y * w + x < w * h) by (nonlinear_arith)
        requires 0 <= x < w, 0 <= y < h;
    assert(0 <= y * w) by (nonlinear_arith)
        requires 0 <= y, 0 < w;
}

proof fn lemma_row_in_screen(w: int, h: int, i: int)
    requires
        0 < w,
        0 <= i < w * h,
    ensures
        0 <= i % w < w,
        0 <= i / w < h,
        i == (i / w) * w + i % w,
{
    vstd::arithmetic::div_mod::lemma_fundamental_div_mod(i, w);
    assert(i == (i / w) * w + i % w) by (nonlinear_arith)
        requires i == w * (i / w) + i % w;
    assert(i / w < h) by (nonlinear_arith)
        requires 0 <= i < w * h, 0 < w, i == (i / w) * w + i % w, 0 <= i % w < w;
    assert(i / w >= 0) by (nonlinear_arith)
        requires 0 <= i, 0 < w;
}

/// Paint pixel (x, y), when it is on screen.
pub fn draw_pixel(fb: &mut Option<Framebuffer>, x: usize, y: usize, color: Color)
    requires
        *old(fb) matches Some(f) ==> f.wf(),
    ensures
        match *old(fb) {
            Some(f) => *final(fb) matches Some(f2) && f2.info == f.info && f2.wf()
                && f2.pixels@ == paint_box(f.pixels@, f.info.width as int, x as int, y as int, 1, 1, color),
            None => *final(fb) is None,
        },
{
    match fb {
        Some(f) => {
            let w = f.info.width;
            let h = f.info.height;
            let ghost before = f.pixels@;
            if x >= w || y >= h {
                proof {
                    assert forall|i: int| 0 <= i < before.len() implies
                        !#[trigger] in_box(i % (w as int), i / (w as int), x as int, y as int, 1, 1) by {
                        lemma_row_in_screen(w as int, h as int, i);
                    }
                    assert(f.pixels@ =~= paint_box(before, w as int, x as int, y as int, 1, 1, color));
                }
                return;
            }
            proof {
                lemma_cell(w as int, h as int, x as int, y as int);
            }
            let n = f.pixels.len();
            assert(y * w + x < n);
            let idx = y * w + x;
            f.pixels.set(idx, color);
            proof {
                assert forall|i: int| 0 <= i < before.len() implies
                    (#[trigger] in_box(i % (w as int), i / (w as int), x as int, y as int, 1, 1) <==> i == idx) by {
                    lemma_row_in_screen(w as int, h as int, i);
                }
                assert(f.pixels@ =~= paint_box(before, w as int, x as int, y as int, 1, 1, color));
            }
        },
        None => {},
    }
}

/// Paint the part of a rectangle that is on screen.
pub fn fill_rect(fb: &mut Option<Framebuffer>, x: usize, y: usize, width: usize, height: usize, color: Color)
    requires
        *old(fb) matches Some(f) ==> f.wf(),
        x + width <= usize::MAX,
        y + height <= usize::MAX,
    ensures
        match *old(fb) {
            Some(f) => *final(fb) matches Some(f2) && f2.info == f.info && f2.wf()
                && f2.pixels@ == paint_box(f.pixels@, f.info.width as int, x as int, y as int, width as int, height as int, color),
            None => *final(fb) is None,
        },
{
    let ghost start = *fb;
    let mut dy: usize = 0;
    while dy < height
        invariant
            dy <= height,
            x + width <= usize::MAX,
            y + height <= usize::MAX,
            match start {
                Some(f) => *fb matches Some(f2) && f2.info == f.info && f2.wf()
                    && f2.pixels@ == paint_box(f.pixels@, f.info.width as int, x as int, y as int, width as int, dy as int, color),
                None => *fb is None,
            },
        decreases height - dy,
    {
        let mut dx: usize = 0;
        while dx < width
            invariant
                dx <= width,
                dy < height,
                x + width <= usize::MAX,
                y + height <= usize::MAX,
                match start {
                    Some(f) => *fb matches Some(f2) && f2.info == f.info && f2.wf()
                        && f2.pixels@ == paint_box(
                            paint_box(f.pixels@, f.info.width as int, x as int, y as int, width as int, dy as int, color),
                            f.info.width as int, x as int, (y + dy) as int, dx as int, 1, color),
                    None => *fb is None,
                },
            decreases width - dx,
        {
            draw_pixel(fb, x + dx, y + dy, color);
            proof {
                if let Some(f) = start {
                    let fw = f.info.width as int;
                    let p = paint_box(f.pixels@, fw, x as int, y as int, width as int, dy as int, color);
                    let q = paint_box(p, fw, x as int, (y + dy) as int, dx as int, 1, color);
                    assert(paint_box(q, fw, (x + dx) as int, (y + dy) as int, 1, 1, color)
                        =~= paint_box(p, fw, x as int, (y + dy) as int, dx + 1, 1, color));
                }
            }
            dx = dx + 1;
        }
        proof {
            if let Some(f) = start {
                let fw = f.info.width as int;
                let p = paint_box(f.pixels@, fw, x as int, y as int, width as int, dy as int, color);
                assert(paint_box(p, fw, x as int, (y + dy) as int, width as int, 1, color)
                    =~= paint_box(f.pixels@, fw, x as int, y as int, width as int, dy + 1, color));
            }
        }
        dy = dy + 1;
    }
}

/// Paint the whole screen.
pub fn clear_screen(fb: &mut Option<Framebuffer>, color: Color)
    requires
        *old(fb) matches Some(f) ==> f.wf(),
    ensures
        match *old(fb) {
            Some(f) => *final(fb) matches Some(f2) && f2.info == f.info && f2.wf()
                && f2.pixels@ == paint_box(f.pixels@, f.info.width as int, 0, 0, f.info.width as int, f.info.height as int, color),
            None => *final(fb) is None,
        },
{
    let dims = match fb {
        Some(f) => Some((f.info.width, f.info.height)),
        None => None,
    };
    if let Some((w, h)) = dims {
        fill_rect(fb, 0, 0, w, h, color);
    }
}

/// A horizontal line of `width` pixels from (x, y).
pub fn draw_hline(fb: &mut Option<Framebuffer>, x: usize, y: usize, width: usize, color: Color)
    requires
        *old(fb) matches Some(f) ==> f.wf(),
        x + width <= usize::MAX,
    ensures
        match *old(fb) {
            Some(f) => *final(fb) matches Some(f2) && f2.info == f.info && f2.wf()
                && f2.pixels@ == paint_box(f.pixels@, f.info.width as int, x as int, y as int, width as int, 1, color),
            None => *final(fb) is None,
        },
{
    let ghost start = *fb;
    let mut i: usize = 0;
    while i < width
        invariant
            i <= width,
            x + width <= usize::MAX,
            match start {
                Some(f) => *fb matches Some(f2) && f2.info == f.info && f2.wf()
                    && f2.pixels@ == paint_box(f.pixels@, f.info.width as int, x as int, y as int, i as int, 1, color),
                None => *fb is None,
            },
        decreases width - i,
    {
        draw_pixel(fb, x + i, y, color);
        proof {
            if let Some(f) = start {
                let fw = f.info.width as int;
                let p = paint_box(f.pixels@, fw, x as int, y as int, i as int, 1, color);
                assert(paint_box(p, fw, (x + i) as int, y as int, 1, 1, color)
                    =~= paint_box(f.pixels@, fw, x as int, y as int, i + 1, 1, color));
            }
        }
        i = i + 1;
    }
}

/// A vertical line of `height` pixels from (x, y).
pub fn draw_vline(fb: &mut Option<Framebuffer>, x: usize, y: usize, height: usize, color: Color)
    requires
        *old(fb) matches Some(f) ==> f.wf(),
        y + height <= usize::MAX,
    ensures
        match *old(fb) {
            Some(f) => *final(fb) matches Some(f2) && f2.info == f.info && f2.wf()
                && f2.pixels@ == paint_box(f.pixels@, f.info.width as int, x as int, y as int, 1, height as int, color),
            None => *final(fb) is None,
        },
{
    let ghost start = *fb;
    let mut i: usize = 0;
    while i < height
        invariant
            i <= height,
            y + height <= usize::MAX,
            match start {
                Some(f) => *fb matches Some(f2) && f2.info == f.info && f2.wf()
                    && f2.pixels@ == paint_box(f.pixels@, f.info.width as int, x as int, y as int, 1, i as int, color),
                None => *fb is None,
            },
        decreases height - i,
    {
        draw_pixel(fb, x, y + i, color);
        proof {
            if let Some(f) = start {
                let fw = f.info.width as int;
                let p = paint_box(f.pixels@, fw, x as int, y as int, 1, i as int, color);
                assert(paint_box(p, fw, x as int, (y + i) as int, 1, 1, color)
                    =~= paint_box(f.pixels@, fw, x as int, y as int, 1, i + 1, color));
            }
        }
        i = i + 1;
    }
}

/// The outline of a rectangle: top, bottom, left and right edges.
pub fn draw_rect(fb: &mut Option<Framebuffer>, x: usize, y: usize, width: usize, height: usize, color: Color)
    requires
        *old(fb) matches Some(f) ==> f.wf(),
        width >= 1,
        height >= 1,
        x + width <= usize::MAX,
        y + height <= usize::MAX,
    ensures
        match *old(fb) {
            Some(f) => *final(fb) matches Some(f2) && f2.info == f.info && f2.wf()
                && f2.pixels@ == paint_box(paint_box(paint_box(paint_box(f.pixels@, f.info.width as int,
                    x as int, y as int, width as int, 1, color), f.info.width as int,
                    x as int, y + height - 1, width as int, 1, color), f.info.width as int,
                    x as int, y as int, 1, height as int, color), f.info.width as int,
                    x + width - 1, y as int, 1, height as int, color),
            None => *final(fb) is None,
        },
{
    draw_hline(fb, x, y, width, color);
    draw_hline(fb, x, y + height - 1, width, color);
    draw_vline(fb, x, y, height, color);
    draw_vline(fb, x + width - 1, y, height, color);
}

/// Draw character `c` at (x, y) from `font` (128 glyphs of eight rows, the leftmost
/// pixel in the top bit): set bits in `fg`, the rest in `bg`.
pub fn draw_char(fb: &mut Option<Framebuffer>, x: usize, y: usize, c: char, fg: Color, bg: Color, font: &Vec<[u8; 8]>)
    requires
        *old(fb) matches Some(f) ==> f.wf(),
        font@.len() == 128,
        x + 8 <= usize::MAX,
        y + 8 <= usize::MAX,
    ensures
        match *old(fb) {
            Some(f) => *final(fb) matches Some(f2) && f2.info == f.info && f2.wf()
                && f2.pixels@ == glyph_box(f.pixels@, f.info.width as int, x as int, y as int, glyph_of(font@, c), fg, bg),
            None => *final(fb) is None,
        },
{
    let code = c as u32;
    let c_idx: usize = if code < 127 { code as usize } else { 127 };
    let glyph = font[c_idx];
    assert(glyph == glyph_of(font@, c));
    let ghost start = *fb;
    proof {
        if let Some(f) = start {
            assert(glyph_rows(f.pixels@, f.info.width as int, x as int, y as int, glyph, fg, bg, 0, 0) =~= f.pixels@);
        }
    }
    let mut dy: usize = 0;
    while dy < 8
        invariant
            dy <= 8,
            x + 8 <= usize::MAX,
            y + 8 <= usize::MAX,
            match start {
                Some(f) => *fb matches Some(f2) && f2.info == f.info && f2.wf()
                    && f2.pixels@ == glyph_rows(f.pixels@, f.info.width as int, x as int, y as int, glyph, fg, bg, dy as int, 0),
                None => *fb is None,
            },
        decreases 8 - dy,
    {
        let row = glyph[dy];
        let mut dx: usize = 0;
        while dx < 8
            invariant
                dx <= 8,
                dy < 8,
                row == glyph@[dy as int],
                x + 8 <= usize::MAX,
                y + 8 <= usize::MAX,
                match start {
                    Some(f) => *fb matches Some(f2) && f2.info == f.info && f2.wf()
                        && f2.pixels@ == glyph_rows(f.pixels@, f.info.width as int, x as int, y as int, glyph, fg, bg, dy as int, dx as int),
                    None => *fb is None,
                },
            decreases 8 - dx,
        {
            let shift: u8 = (7 - dx) as u8;
            let pixel = (row >> shift) & 1;
            let color = if pixel == 1 { fg } else { bg };
            draw_pixel(fb, x + dx, y + dy, color);
            proof {
                if let Some(f) = start {
                    let fw = f.info.width as int;
                    let q = glyph_rows(f.pixels@, fw, x as int, y as int, glyph, fg, bg, dy as int, dx as int);
                    assert(paint_box(q, fw, (x + dx) as int, (y + dy) as int, 1, 1, color)
                        =~= glyph_rows(f.pixels@, fw, x as int, y as int, glyph, fg, bg, dy as int, dx + 1));
                }
            }
            dx = dx + 1;
        }
        proof {
            if let Some(f) = start {
                let fw = f.info.width as int;
                assert(glyph_rows(f.pixels@, fw, x as int, y as int, glyph, fg, bg, dy as int, 8)
                    =~= glyph_rows(f.pixels@, fw, x as int, y as int, glyph, fg, bg, dy + 1, 0));
            }
        }
        dy = dy + 1;
    }
    proof {
        if let Some(f) = start {
            let fw = f.info.width as int;
            assert(glyph_rows(f.pixels@, fw, x as int, y as int, glyph, fg, bg, 8, 0)
                =~= glyph_box(f.pixels@, fw, x as int, y as int, glyph, fg, bg));
        }
    }
}

/// The grid with the glyph drawn in its first `rows` rows, and in row `rows` only in
/// its first `cols` columns.
pub open spec fn glyph_rows(old: Seq<Color>, fw: int, x: int, y: int, glyph: [u8; 8], fg: Color, bg: Color, rows: int, cols: int) -> Seq<Color> {
    Seq::new(old.len(), |i: int|
        if in_box(i % fw, i / fw, x, y, 8, rows) || in_box(i % fw, i / fw, x, y + rows, cols, 1) {
            if glyph_bit(glyph@[i / fw - y], i % fw - x) { fg } else { bg }
        } else {
            old[i]
        })
}

/// Draw a string from (x, y), eight pixels per character; newlines are skipped.
pub fn draw_string(fb: &mut Option<Framebuffer>, x: usize, y: usize, s: &str, fg: Color, bg: Color, font: &Vec<[u8; 8]>)
    requires
        *old(fb) matches Some(f) ==> f.wf(),
        font@.len() == 128,
        x + 8 * s@.len() + 8 <= usize::MAX,
        y + 8 <= usize::MAX,
    ensures
        match *old(fb) {
            Some(f) => *final(fb) matches Some(f2) && f2.info == f.info && f2.wf()
                && f2.pixels@ == text_box(f.pixels@, f.info.width as int, x as int, y as int, s@, fg, bg, font@),
            None => *final(fb) is None,
        },
{
    let cs = crate::util::chars_of(s);
    let ghost start = *fb;
    let mut cx = x;
    let mut i: usize = 0;
    assert(s@.skip(0) =~= s@);
    while i < cs.len()
        invariant
            cs@ == s@,
            font@.len() == 128,
            i <= cs@.len(),
            x <= cx <= x + 8 * i,
            x + 8 * s@.len() + 8 <= usize::MAX,
            y + 8 <= usize::MAX,
            match start {
                Some(f) => *fb matches Some(f2) && f2.info == f.info && f2.wf()
                    && text_box(f.pixels@, f.info.width as int, x as int, y as int, s@, fg, bg, font@)
                        == text_box(f2.pixels@, f.info.width as int, cx as int, y as int, s@.skip(i as int), fg, bg, font@),
                None => *fb is None,
            },
        decreases cs@.len() - i,
    {
        let c = cs[i];
        proof {
            assert(s@.skip(i as int)[0] == c);
            assert(s@.skip(i as int).drop_first() =~= s@.skip(i + 1));
        }
        if c == '\n' {
            i = i + 1;
            continue;
        }
        draw_char(fb, cx, y, c, fg, bg, font);
        cx = cx + 8;
        i = i + 1;
    }
    proof {
        assert(s@.skip(i as int) =~= Seq::<char>::empty());
    }
}

} // verus!
