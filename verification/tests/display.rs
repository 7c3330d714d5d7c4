use umbra::fb::{fb_ops, pixel_byte_offset, pixel_color, FbOp, Glyph, SysFbInfo, TextCursor, GLYPH_WIDTH, PIXEL_BGR, PIXEL_RGB, PIXEL_U8};
use umbra::ipc::{Message, FB_BACKSPACE, FB_CLEAR_SCREEN, FB_WRITE_CHAR, FB_WRITE_STRING};

#[test]
fn characters_advance_and_wrap() {
    let mut t = TextCursor::new(21, 64);
    assert_eq!(t.put_char('a'), Some(Glyph { clear_first: false, x: 0, y: 0 }));
    assert_eq!((t.x, t.y), (7, 0));
    assert_eq!(t.put_char('b'), Some(Glyph { clear_first: false, x: 7, y: 0 }));
    // 14 + 7 reaches the right edge: the next glyph starts a new line.
    assert_eq!(t.put_char('c'), Some(Glyph { clear_first: false, x: 0, y: 16 }));
    assert_eq!((t.x, t.y), (7, 16));
    assert_eq!(t.put_char('\r'), None);
    assert_eq!((t.x, t.y), (0, 16));
    assert_eq!(t.put_char('\n'), None);
    assert_eq!((t.x, t.y), (0, 32));
}

#[test]
fn reaching_the_bottom_clears_the_screen() {
    let mut t = TextCursor::new(100, 40);
    t.put_char('\n');
    t.put_char('\n');
    assert_eq!(t.y, 32);
    assert_eq!(t.put_char('x'), Some(Glyph { clear_first: true, x: 0, y: 0 }));
    assert_eq!((t.x, t.y), (GLYPH_WIDTH, 0));
}

#[test]
fn backspace_steps_back_and_up() {
    let mut t = TextCursor::new(70, 100);
    t.put_char('a');
    t.put_char('b');
    assert_eq!(t.backspace(), (7, 0));
    assert_eq!(t.backspace(), (0, 0));
    assert_eq!(t.backspace(), (0, 0));
    t.put_char('\n');
    assert_eq!(t.backspace(), (63, 0));
    t.clear();
    assert_eq!((t.x, t.y), (0, 0));
    assert_eq!((t.width, t.height), (70, 100));
}

#[test]
fn pixel_colors_and_offsets() {
    assert_eq!(pixel_color(PIXEL_RGB, 0x80), [0x80, 0x80, 0x80, 0]);
    assert_eq!(pixel_color(PIXEL_BGR, 0xFF), [0xFF, 0xFF, 0xFF, 0]);
    assert_eq!(pixel_color(PIXEL_U8, 201), [0xF, 0, 0, 0]);
    assert_eq!(pixel_color(PIXEL_U8, 200), [0, 0, 0, 0]);
    assert_eq!(pixel_color(9, 7), [7, 7, 7, 0]);
    assert_eq!(pixel_byte_offset(3, 2, 640, 4), (2 * 640 + 3) * 4);
    assert_eq!(pixel_byte_offset(3, 2, 640, 0), 0);
}

#[test]
fn display_requests_decode() {
    assert_eq!(fb_ops(&Message::new(FB_WRITE_CHAR, b"A")), vec![FbOp::Char(b'A')]);
    assert_eq!(fb_ops(&Message::new(FB_WRITE_CHAR, &[8])), vec![FbOp::Backspace]);
    assert_eq!(fb_ops(&Message::new(FB_BACKSPACE, &[])), vec![FbOp::Backspace]);
    assert_eq!(fb_ops(&Message::new(FB_CLEAR_SCREEN, &[])), vec![FbOp::Clear]);
    assert_eq!(
        fb_ops(&Message::new(FB_WRITE_STRING, b"hi\x08!\0ignored")),
        vec![FbOp::Char(b'h'), FbOp::Char(b'i'), FbOp::Backspace, FbOp::Char(b'!')]
    );
    assert_eq!(fb_ops(&Message::new(FB_WRITE_STRING, &[b'x'; 64])).len(), 64);
    assert!(fb_ops(&Message::new(99, b"zz")).is_empty());
}

#[test]
fn framebuffer_info_is_plain_data() {
    let info = SysFbInfo { phys_addr: 0xFD00_0000, byte_len: 4096, width: 32, height: 32, pixel_format: PIXEL_BGR, bytes_per_pixel: 4, stride: 32 };
    let copy = info;
    assert_eq!(copy, info);
}

#[test]
fn glyphs_come_from_the_console_font() {
    let a = umbra::fb::glyph_pixels('A');
    assert_eq!(a.len(), GLYPH_WIDTH * 16);
    assert!(a.iter().any(|&p| p > 0));
    let space = umbra::fb::glyph_pixels(' ');
    assert!(space.iter().all(|&p| p == 0));
    // A character the font does not cover is drawn as a space.
    assert_eq!(umbra::fb::glyph_pixels('\u{4E00}'), space);
    assert_ne!(umbra::fb::glyph_pixels('B'), a);
}
