use embedded_graphics::pixelcolor::{Rgb888, RgbColor};
use fusarium::armv6a::drivers::framebuffer::{FrameBuffer, FrameBufferMail, Painter, Pixel, BIT_DEPTH};
use fusarium::armv6a::drivers::mailbox::Mail;
use fusarium::armv6a::drivers::video::VideoDriver;

fn black() -> Pixel {
    Pixel { blue: 0, green: 0, red: 0 }
}

fn same(a: Pixel, b: Pixel) -> bool {
    a.blue == b.blue && a.green == b.green && a.red == b.red
}

#[test]
fn hex_splits_channels() {
    let p = Pixel::hex(0x12_34_56);
    assert_eq!((p.red, p.green, p.blue), (0x12, 0x34, 0x56));
    let p = Pixel::hex(0xFF_AB_CD_EF);
    assert_eq!((p.red, p.green, p.blue), (0xAB, 0xCD, 0xEF));
}

#[test]
fn to_u32_joins_channels() {
    assert_eq!(Pixel { blue: 0x56, green: 0x34, red: 0x12 }.to_u32(), 0x12_34_56);
    assert_eq!(Pixel::hex(0xFF_AB_CD_EF).to_u32(), 0xAB_CD_EF);
    assert_eq!(Pixel::hex(0).to_u32(), 0);
    let p = Pixel { blue: 7, green: 200, red: 99 };
    assert!(same(Pixel::hex(p.to_u32()), p));
}

#[test]
fn drawing_colour_conversions_swap_red_and_blue() {
    let p = Pixel::from(Rgb888::new(1, 2, 3));
    assert_eq!((p.blue, p.green, p.red), (1, 2, 3));
    let c = Rgb888::from(Pixel { blue: 1, green: 2, red: 3 });
    assert_eq!((c.r(), c.g(), c.b()), (3, 2, 1));
    let back = Pixel::from(Rgb888::from(Pixel { blue: 10, green: 20, red: 30 }));
    assert_eq!((back.blue, back.green, back.red), (30, 20, 10));
}

#[test]
fn framebuffer_getters() {
    let mut pixels = vec![black(); 6];
    let mut fb = FrameBuffer::new(9, 2, 3, &mut pixels[..]);
    assert_eq!(fb.get_pitch(), 9);
    assert_eq!(fb.get_rows(), 2);
    assert_eq!(fb.get_columns(), 3);
    assert_eq!(fb.get_buffer().len(), 6);
    let mut empty = FrameBuffer::unitialized();
    assert_eq!(empty.get_pitch(), 0);
    assert_eq!(empty.get_rows(), 0);
    assert_eq!(empty.get_columns(), 0);
    assert_eq!(empty.get_buffer().len(), 0);
}

#[test]
fn pixel_sets_row_major_index() {
    let mut pixels = vec![black(); 12];
    {
        let mut fb = FrameBuffer::new(12, 3, 4, &mut pixels[..]);
        let mut painter = Painter::new(&mut fb);
        painter.pixel(2, 1, Pixel::hex(0xFF0000));
        painter.pixel_rgb(3, 2, 0x00FF00);
    }
    for (i, p) in pixels.iter().enumerate() {
        if i == 6 {
            assert!(same(*p, Pixel { blue: 0, green: 0, red: 0xFF }));
        } else if i == 11 {
            assert!(same(*p, Pixel { blue: 0, green: 0xFF, red: 0 }));
        } else {
            assert!(same(*p, black()));
        }
    }
}

#[test]
fn line_follows_bresenham() {
    let mut pixels = vec![black(); 25];
    let white = Pixel::hex(0xFFFFFF);
    {
        let mut fb = FrameBuffer::new(15, 5, 5, &mut pixels[..]);
        let mut painter = Painter::new(&mut fb);
        painter.line(0, 0, 4, 2, white);
    }
    let on = [(0, 0), (1, 1), (2, 1), (3, 2), (4, 2)];
    for y in 0..5 {
        for x in 0..5 {
            let expected = if on.contains(&(x, y)) { white } else { black() };
            assert!(same(pixels[y * 5 + x], expected), "pixel ({}, {})", x, y);
        }
    }
}

#[test]
fn line_backwards_and_steep() {
    let mut pixels = vec![black(); 25];
    let red = Pixel::hex(0xFF0000);
    {
        let mut fb = FrameBuffer::new(15, 5, 5, &mut pixels[..]);
        let mut painter = Painter::new(&mut fb);
        painter.line(3, 4, 2, 0, red);
    }
    let on = [(3, 4), (3, 3), (2, 2), (2, 1), (2, 0)];
    let mut count = 0;
    for y in 0..5 {
        for x in 0..5 {
            let lit = same(pixels[y * 5 + x], red);
            assert_eq!(lit, on.contains(&(x, y)), "pixel ({}, {})", x, y);
            if lit {
                count += 1;
            }
        }
    }
    assert_eq!(count, 5);
}

#[test]
fn line_of_one_point() {
    let mut pixels = vec![black(); 4];
    let blue = Pixel::hex(0x0000FF);
    {
        let mut fb = FrameBuffer::new(6, 2, 2, &mut pixels[..]);
        let mut painter = Painter::new(&mut fb);
        painter.line(1, 1, 1, 1, blue);
    }
    assert!(same(pixels[3], blue));
    assert!(same(pixels[0], black()));
}

#[test]
fn clear_screen_blacks_everything() {
    let mut pixels = vec![Pixel::hex(0xABCDEF); 7];
    {
        let mut fb = FrameBuffer::new(21, 1, 7, &mut pixels[..]);
        let mut painter = Painter::new(&mut fb);
        painter.clear_screen();
    }
    assert!(pixels.iter().all(|p| same(*p, black())));
}

#[test]
fn draw_clipped_skips_points_off_screen() {
    let mut pixels = vec![black(); 9];
    let green = Pixel::hex(0x00FF00);
    {
        let mut fb = FrameBuffer::new(9, 3, 3, &mut pixels[..]);
        let mut painter = Painter::new(&mut fb);
        painter.draw_clipped(-1, 0, green);
        painter.draw_clipped(0, -5, green);
        painter.draw_clipped(641, 0, green);
        painter.draw_clipped(0, 481, green);
        painter.draw_clipped(1, 2, green);
    }
    for (i, p) in pixels.iter().enumerate() {
        assert_eq!(same(*p, green), i == 7);
    }
}

#[test]
fn framebuffer_request_and_reply() {
    let req = FrameBufferMail::request(640, 480);
    assert_eq!((req.width, req.height, req.virtual_width, req.virtual_height), (640, 480, 640, 480));
    assert_eq!(req.depth, BIT_DEPTH);
    assert_eq!(BIT_DEPTH, 24);
    assert_eq!((req.pitch, req.x_offset, req.y_offset, req.pointer, req.size), (0, 0, 0, 0, 0));
    assert!(!req.is_allocated(Mail::from(0x8)));
    let mut done = FrameBufferMail::request(640, 480);
    done.pointer = 0x3E00_0000;
    done.size = 640 * 480 * 3;
    assert!(done.is_allocated(Mail::from(0x8)));
    assert!(!done.is_allocated(Mail::from(0x18)));
    assert_eq!(done.pixel_count(), 640 * 480);
}

#[test]
fn request_mail_word() {
    let m = FrameBufferMail::mail_for_address(0x0040_0000);
    assert_eq!(u32::from(m), 0xC040_0001);
    let m = FrameBufferMail::mail_for_address(0x0040_0007);
    assert_eq!(u32::from(m), 0xC040_0001);
}

#[test]
fn video_driver_starts_empty() {
    let mut v = VideoDriver::new();
    assert_eq!(v.buffer.get_pitch(), 0);
    assert_eq!(v.buffer.get_columns(), 0);
    let mut d = VideoDriver::default();
    let mut p = d.painter();
    p.clear_screen();
}

#[test]
fn video_driver_is_handed_out_once() {
    let mut available = true;
    assert!(VideoDriver::take_from(&mut available).is_some());
    assert!(!available);
    assert!(VideoDriver::take_from(&mut available).is_none());
    assert!(!available);
}

#[test]
fn can_draw_tells_whether_the_index_fits() {
    let mut pixels = vec![black(); 6];
    let mut fb = FrameBuffer::new(9, 2, 3, &mut pixels[..]);
    let mut painter = Painter::new(&mut fb);
    assert!(painter.can_draw(0, 0));
    assert!(painter.can_draw(2, 1));
    assert!(!painter.can_draw(0, 2));
    assert!(painter.can_draw(5, 0));
    assert!(!painter.can_draw(6, 0));
    assert!(!painter.can_draw(u32::MAX, 1));
    assert!(!painter.can_draw(0, u32::MAX));
}

#[test]
fn reply_describes_the_framebuffer() {
    let mut reply = FrameBufferMail::request(3, 2);
    reply.pitch = 12;
    let mut pixels = vec![black(); 6];
    let mut fb = reply.frame_buffer(&mut pixels[..]);
    assert_eq!(fb.get_pitch(), 12);
    assert_eq!(fb.get_rows(), 2);
    assert_eq!(fb.get_columns(), 3);
    assert_eq!(fb.get_buffer().len(), 6);
}

#[test]
fn horizontal_and_vertical_lines() {
    let mut pixels = vec![black(); 16];
    let c = Pixel::hex(0x123456);
    {
        let mut fb = FrameBuffer::new(12, 4, 4, &mut pixels[..]);
        let mut painter = Painter::new(&mut fb);
        painter.line(3, 1, 0, 1, c);
        painter.line(2, 3, 2, 2, c);
    }
    let on = [(0, 1), (1, 1), (2, 1), (3, 1), (2, 2), (2, 3)];
    for y in 0..4 {
        for x in 0..4 {
            assert_eq!(same(pixels[y * 4 + x], c), on.contains(&(x, y)), "pixel ({}, {})", x, y);
        }
    }
}
