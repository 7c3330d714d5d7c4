use vstd::prelude::*;

use crate::ipc::{
    Message, IPC_MSG_DATA_SIZE, FB_BACKSPACE, FB_CLEAR_SCREEN, FB_WRITE_CHAR, FB_WRITE_STRING,
};

verus! {

/// Height of a text line in pixels (the glyph raster height).
pub const LINE_HEIGHT: usize = 16;
/// Width of a glyph of the console font in pixels.
pub const GLYPH_WIDTH: usize = 7;
/// Pixel format codes handed to user space.
pub const PIXEL_RGB: u8 = 0;
pub const PIXEL_BGR: u8 = 1;
pub const PIXEL_U8: u8 = 2;
pub const PIXEL_UNKNOWN: u8 = 3;

/// The framebuffer as the kernel describes it to the display server.
#[derive(Debug, Clone, Copy, PartialEq, Eq)]
pub struct SysFbInfo {
    pub phys_addr: u64,
    pub byte_len: usize,
    pub width: usize,
    pub height: usize,
    pub pixel_format: u8,
    pub bytes_per_pixel: usize,
    pub stride: usize,
}

/// Width of the console glyphs, from `noto_sans_mono_bitmap::get_raster_width`
/// for the regular weight at raster height 16 (the crate's table gives 7).
#[verifier::external_body]
fn glyph_width() -> (w: usize)
    ensures
        w == GLYPH_WIDTH,
{
    noto_sans_mono_bitmap::get_raster_width(
        noto_sans_mono_bitmap::FontWeight::Regular,
        noto_sans_mono_bitmap::RasterHeight::Size16,
    )
}

/// The pixel intensities of the console font's glyph for `c` (regular weight,
/// raster height 16), row by row, or `None` when the font has no glyph for it.
pub uninterp spec fn font_raster(c: char) -> Option<Seq<u8>>;

/// The glyph of `c` from `noto_sans_mono_bitmap::get_raster` (regular weight,
/// raster height 16) and its `pixels`. The crate documents the pixels as
/// exactly width times height bytes, row by row, and its table covers every
/// printable ASCII character; which glyph a character has is the font's
/// table, named here and not written out.
#[verifier::external_body]
fn raster(c: char) -> (r: Option<&'static [u8]>)
    ensures
        match r {
            Some(p) => font_raster(c) == Some(p@) && p@.len() == GLYPH_WIDTH * LINE_HEIGHT,
            None => font_raster(c) is None,
        },
        0x20 <= (c as u32) <= 0x7E ==> r is Some,
{
    let style = noto_sans_mono_bitmap::FontWeight::Regular;
    match noto_sans_mono_bitmap::get_raster(c, style, noto_sans_mono_bitmap::RasterHeight::Size16) {
        Some(glyph) => Some(glyph.pixels()),
        None => None,
    }
}

/// The pixels to draw for `c`: its glyph, or the blank glyph of a space when
/// the font has none for `c`; `GLYPH_WIDTH` by `LINE_HEIGHT` intensities,
/// row by row.
pub fn glyph_pixels(c: char) -> (p: &'static [u8])
    ensures
        p@.len() == GLYPH_WIDTH * LINE_HEIGHT,
        font_raster(c) is Some ==> Some(p@) == font_raster(c),
        font_raster(c) is None ==> Some(p@) == font_raster(' '),
{
    match raster(c) {
        Some(p) => p,
        None => raster(' ').unwrap(),
    }
}

/// Where the next glyph goes on a text screen of `width` by `height` pixels.
#[derive(Debug, Clone, Copy, PartialEq, Eq)]
pub struct TextCursor {
    pub x: usize,
    pub y: usize,
    pub width: usize,
    pub height: usize,
}

/// A glyph to draw: its top-left corner, after clearing the screen when
/// `clear_first` is set.
#[derive(Debug, Clone, Copy, PartialEq, Eq)]
pub struct Glyph {
    pub clear_first: bool,
    pub x: usize,
    pub y: usize,
}

/// The cursor moved to `(x, y)` on the same screen.
pub open spec fn moved(t: TextCursor, x: int, y: int) -> TextCursor {
    TextCursor { x: x as usize, y: y as usize, width: t.width, height: t.height }
}

/// Writing one character: newline and carriage return only move the cursor;
/// any other character wraps to the next line when it would reach the right
/// edge, starts over from a cleared screen when its line would reach the
/// bottom, is drawn at the cursor, and advances it by one glyph.
pub open spec fn spec_put_char(t: TextCursor, c: char) -> (TextCursor, Option<Glyph>) {
    if c == '\n' {
        (moved(t, 0, t.y + LINE_HEIGHT), None)
    } else if c == '\r' {
        (moved(t, 0, t.y as int), None)
    } else {
        let t1 = if t.x + GLYPH_WIDTH >= t.width {
            moved(t, 0, t.y + LINE_HEIGHT)
        } else {
            t
        };
        let clear = t1.y + LINE_HEIGHT - 1 >= t.height;
        let t2 = if clear {
            moved(t, 0, 0)
        } else {
            t1
        };
        (moved(t, t2.x + GLYPH_WIDTH, t2.y as int), Some(Glyph { clear_first: clear, x: t2.x, y: t2.y }))
    }
}

/// Erasing one character: the cursor steps back one glyph, or to the end of
/// the previous line from the start of a line, and stays put at the top-left
/// corner; a blank glyph is drawn where it lands.
pub open spec fn spec_backspace(t: TextCursor) -> TextCursor {
    if t.x >= GLYPH_WIDTH {
        moved(t, t.x - GLYPH_WIDTH, t.y as int)
    } else if t.y >= LINE_HEIGHT {
        moved(t, t.width - GLYPH_WIDTH, t.y - LINE_HEIGHT)
    } else {
        t
    }
}

impl TextCursor {
    /// A cursor at the top-left corner of a `width` by `height` screen.
    pub fn new(width: usize, height: usize) -> (t: TextCursor)
        ensures
            t == (TextCursor { x: 0, y: 0, width, height }),
    {
        TextCursor { x: 0, y: 0, width, height }
    }

    /// Back to the top-left corner; the caller blanks the screen.
    pub fn clear(&mut self)
        ensures
            *final(self) == moved(*old(self), 0, 0),
    {
        self.x = 0;
        self.y = 0;
    }

    /// Writes `c`: returns the glyph to draw, if any, and moves the cursor.
    pub fn put_char(&mut self, c: char) -> (g: Option<Glyph>)
        requires
            old(self).x + GLYPH_WIDTH <= usize::MAX,
            old(self).y + 2 * LINE_HEIGHT <= usize::MAX,
        ensures
            (*final(self), g) == spec_put_char(*old(self), c),
    {
        if c == '\n' {
            self.y = self.y + LINE_HEIGHT;
            self.x = 0;
            None
        } else if c == '\r' {
            self.x = 0;
            None
        } else {
            let w = glyph_width();
            if self.x + w >= self.width {
                self.y = self.y + LINE_HEIGHT;
                self.x = 0;
            }
            let clear = self.y + LINE_HEIGHT - 1 >= self.height;
            if clear {
                self.x = 0;
                self.y = 0;
            }
            let g = Glyph { clear_first: clear, x: self.x, y: self.y };
            self.x = self.x + w;
            Some(g)
        }
    }

    /// Erases the character before the cursor: returns where the blank glyph
    /// is drawn, which is where the cursor ends up.
    pub fn backspace(&mut self) -> (at: (usize, usize))
        requires
            old(self).x < GLYPH_WIDTH && old(self).y >= LINE_HEIGHT ==> old(self).width
                >= GLYPH_WIDTH,
        ensures
            *final(self) == spec_backspace(*old(self)),
            at == (final(self).x, final(self).y),
    {
        let w = glyph_width();
        if self.x >= w {
            self.x = self.x - w;
        } else if self.y >= LINE_HEIGHT {
            self.y = self.y - LINE_HEIGHT;
            self.x = self.width - w;
        }
        (self.x, self.y)
    }
}

/// Erasing right after a character was written on the same line, with no
/// wrap and no clear, takes the cursor back to where it was and blanks the
/// glyph just drawn.
pub proof fn law_backspace_undoes_char(t: TextCursor, c: char)
    requires
        c != '\n' && c != '\r',
        t.x + GLYPH_WIDTH < t.width,
        t.y + LINE_HEIGHT - 1 < t.height,
    ensures
        spec_backspace(spec_put_char(t, c).0) == t,
        spec_put_char(t, c).1 == Some(Glyph { clear_first: false, x: t.x, y: t.y }),
{
}

/// The bytes of one pixel of the given intensity: grey in the RGB and BGR
/// formats (and any other), a 4-bit level that is on above 200 in the U8 format.
pub open spec fn spec_pixel_color(format: u8, intensity: u8) -> Seq<u8> {
    if format == PIXEL_U8 {
        seq![if intensity > 200 { 0xFu8 } else { 0u8 }, 0u8, 0u8, 0u8]
    } else {
        seq![intensity, intensity, intensity, 0u8]
    }
}

/// The pixel bytes for `intensity` in pixel format `format`.
pub fn pixel_color(format: u8, intensity: u8) -> (c: [u8; 4])
    ensures
        c@ == spec_pixel_color(format, intensity),
{
    let c: [u8; 4] = if format == PIXEL_U8 {
        [if intensity > 200 {
            0xF
        } else {
            0
        }, 0, 0, 0]
    } else {
        [intensity, intensity, intensity, 0]
    };
    assert(c@ =~= spec_pixel_color(format, intensity));
    c
}

/// Byte offset of pixel `(x, y)` in a framebuffer with `stride` pixels per
/// row and `bytes_per_pixel` bytes per pixel.
pub fn pixel_byte_offset(x: usize, y: usize, stride: usize, bytes_per_pixel: usize) -> (off: usize)
    requires
        y * stride + x <= usize::MAX,
        (y * stride + x) * bytes_per_pixel <= usize::MAX,
    ensures
        off == (y * stride + x) * bytes_per_pixel,
{
    assert(0 <= y * stride) by (nonlinear_arith);
    let pixel = y * stride + x;
    pixel * bytes_per_pixel
}

/// A request to the display server.
#[derive(Debug, Clone, Copy, PartialEq, Eq)]
pub enum FbOp {
    /// Write the character with this code.
    Char(u8),
    Backspace,
    Clear,
}

/// A byte of text: code 8 erases, anything else is written.
pub open spec fn op_of(b: u8) -> FbOp {
    if b == 8 {
        FbOp::Backspace
    } else {
        FbOp::Char(b)
    }
}

/// Length of the text in a payload: up to the first zero byte.
pub open spec fn text_len(data: Seq<u8>, i: int) -> int
    decreases data.len() - i,
{
    if i >= data.len() || data[i] == 0 {
        i
    } else {
        text_len(data, i + 1)
    }
}

/// The display operations a message asks for: one character (or erase) for
/// a write-char request, the text up to the first zero byte for a string
/// request, an erase or a clear for those requests, nothing for other tags.
pub open spec fn spec_fb_ops(m: Message) -> Seq<FbOp> {
    if m.tag == FB_WRITE_CHAR {
        seq![op_of(m.data@[0])]
    } else if m.tag == FB_BACKSPACE {
        seq![FbOp::Backspace]
    } else if m.tag == FB_CLEAR_SCREEN {
        seq![FbOp::Clear]
    } else if m.tag == FB_WRITE_STRING {
        Seq::new(text_len(m.data@, 0) as nat, |i: int| op_of(m.data@[i]))
    } else {
        Seq::empty()
    }
}

fn byte_op(b: u8) -> (op: FbOp)
    ensures
        op == op_of(b),
{
    if b == 8 {
        FbOp::Backspace
    } else {
        FbOp::Char(b)
    }
}

/// Decodes a request to the display server into the operations it asks for.
pub fn fb_ops(m: &Message) -> (ops: Vec<FbOp>)
    ensures
        ops@ == spec_fb_ops(*m),
{
    let mut ops: Vec<FbOp> = Vec::new();
    if m.tag == FB_WRITE_CHAR {
        ops.push(byte_op(m.data[0]));
        assert(ops@ =~= spec_fb_ops(*m));
    } else if m.tag == FB_BACKSPACE {
        ops.push(FbOp::Backspace);
        assert(ops@ =~= spec_fb_ops(*m));
    } else if m.tag == FB_CLEAR_SCREEN {
        ops.push(FbOp::Clear);
        assert(ops@ =~= spec_fb_ops(*m));
    } else if m.tag == FB_WRITE_STRING {
        let mut i: usize = 0;
        while i < IPC_MSG_DATA_SIZE && m.data[i] != 0
            invariant
                i <= IPC_MSG_DATA_SIZE,
                m.data@.len() == IPC_MSG_DATA_SIZE,
                text_len(m.data@, 0) == text_len(m.data@, i as int),
                forall|k: int| 0 <= k < i ==> m.data@[k] != 0,
                ops@ == Seq::new(i as nat, |k: int| op_of(m.data@[k])),
            decreases IPC_MSG_DATA_SIZE - i,
        {
            ops.push(byte_op(m.data[i]));
            i = i + 1;
            assert(ops@ =~= Seq::new(i as nat, |k: int| op_of(m.data@[k])));
        }
        assert(text_len(m.data@, i as int) == i);
    } else {
        assert(ops@ =~= spec_fb_ops(*m));
    }
    ops
}

} // verus!
