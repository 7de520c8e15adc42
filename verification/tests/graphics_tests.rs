use ayux::canvas::Canvas;
use ayux::color::Color;
use ayux::font::text_extent;
use ayux::image::Image;
use ayux::rect::Rect;

fn pixel(buf: &[u8], pitch: usize, x: usize, y: usize) -> [u8; 4] {
    let o = y * pitch + 4 * x;
    [buf[o], buf[o + 1], buf[o + 2], buf[o + 3]]
}

fn painted(buf: &[u8], pitch: usize, w: usize, h: usize) -> Vec<(usize, usize)> {
    let mut v = Vec::new();
    for y in 0..h {
        for x in 0..w {
            if pixel(buf, pitch, x, y) != [0, 0, 0, 0] {
                v.push((x, y));
            }
        }
    }
    v
}

#[test]
fn rect_contains_and_intersection() {
    let a = Rect::new(0, 0, 10, 10);
    let b = Rect::new(5, 5, 10, 10);
    assert!(a.contains(0, 0));
    assert!(a.contains(9, 9));
    assert!(!a.contains(10, 9));
    assert!(a.intersects(&b));
    assert_eq!(a.intersection(&b), Some(Rect::new(5, 5, 5, 5)));
    let c = Rect::new(10, 0, 5, 5);
    assert!(!a.intersects(&c));
    assert_eq!(a.intersection(&c), None);
}

#[test]
fn put_pixel_opaque_writes_bgra() {
    let mut buf = vec![0u8; 64];
    let mut c = Canvas::new(&mut buf, 4, 4, 16);
    c.put_pixel(1, 2, Color::rgba(10, 20, 30, 255));
    assert_eq!(pixel(&buf, 16, 1, 2), [30, 20, 10, 255]);
}

#[test]
fn put_pixel_blends_translucent_colour() {
    let mut buf = vec![0u8; 64];
    let mut c = Canvas::new(&mut buf, 4, 4, 16);
    c.put_pixel(0, 0, Color::rgba(200, 100, 50, 128));
    assert_eq!(pixel(&buf, 16, 0, 0), [25, 50, 100, 255]);
}

#[test]
fn transparent_pixel_changes_nothing() {
    let mut buf = vec![7u8; 64];
    let mut c = Canvas::new(&mut buf, 4, 4, 16);
    c.put_pixel(0, 0, Color::rgba(200, 100, 50, 0));
    assert_eq!(buf, vec![7u8; 64]);
}

#[test]
fn drawing_outside_clip_changes_nothing() {
    let mut buf = vec![0u8; 64];
    let mut c = Canvas::new(&mut buf, 4, 4, 16);
    c.set_clip(Rect::new(0, 0, 2, 2));
    c.put_pixel(3, 3, Color::red());
    c.fill_rect(Rect::new(1, 1, 3, 3), Color::white());
    assert_eq!(painted(&buf, 16, 4, 4), vec![(1, 1)]);
}

#[test]
fn set_clip_is_cut_to_surface() {
    let mut buf = vec![0u8; 64];
    let mut c = Canvas::new(&mut buf, 4, 4, 16);
    c.set_clip(Rect::new(2, 2, 10, 10));
    assert_eq!(c.clip_rect, Rect::new(2, 2, 2, 2));
    c.set_clip(Rect::new(10, 10, 2, 2));
    assert_eq!(c.clip_rect, Rect::new(0, 0, 0, 0));
}

#[test]
fn fill_rect_and_clear() {
    let mut buf = vec![0u8; 64];
    let mut c = Canvas::new(&mut buf, 4, 4, 16);
    c.fill_rect(Rect::new(1, 1, 2, 2), Color::rgb(1, 2, 3));
    assert_eq!(painted(&buf, 16, 4, 4), vec![(1, 1), (2, 1), (1, 2), (2, 2)]);
    let mut c = Canvas::new(&mut buf, 4, 4, 16);
    c.clear(Color::rgb(9, 9, 9));
    assert_eq!(painted(&buf, 16, 4, 4).len(), 16);
    assert_eq!(pixel(&buf, 16, 3, 3), [9, 9, 9, 255]);
}

#[test]
fn draw_line_follows_bresenham() {
    let mut buf = vec![0u8; 64];
    let mut c = Canvas::new(&mut buf, 4, 4, 16);
    c.draw_line(0, 0, 3, 1, Color::white());
    assert_eq!(painted(&buf, 16, 4, 4), vec![(0, 0), (1, 0), (2, 1), (3, 1)]);
}

#[test]
fn draw_line_single_point_and_reverse() {
    let mut buf = vec![0u8; 64];
    let mut c = Canvas::new(&mut buf, 4, 4, 16);
    c.draw_line(2, 2, 2, 2, Color::white());
    assert_eq!(painted(&buf, 16, 4, 4), vec![(2, 2)]);
    let mut buf = vec![0u8; 64];
    let mut c = Canvas::new(&mut buf, 4, 4, 16);
    c.draw_line(0, 3, 0, 0, Color::white());
    assert_eq!(painted(&buf, 16, 4, 4), vec![(0, 0), (0, 1), (0, 2), (0, 3)]);
}

#[test]
fn draw_rect_outlines() {
    let mut buf = vec![0u8; 64];
    let mut c = Canvas::new(&mut buf, 4, 4, 16);
    c.draw_rect(Rect::new(0, 0, 3, 3), Color::white());
    assert_eq!(
        painted(&buf, 16, 4, 4),
        vec![(0, 0), (1, 0), (2, 0), (0, 1), (2, 1), (0, 2), (1, 2), (2, 2)]
    );
}

#[test]
fn draw_circle_of_radius_one() {
    let mut buf = vec![0u8; 11 * 11 * 4];
    let mut c = Canvas::new(&mut buf, 11, 11, 44);
    c.draw_circle(5, 5, 1, Color::white());
    assert_eq!(painted(&buf, 44, 11, 11), vec![(5, 4), (4, 5), (6, 5), (5, 6)]);
}

#[test]
fn draw_circle_of_radius_zero() {
    let mut buf = vec![0u8; 11 * 11 * 4];
    let mut c = Canvas::new(&mut buf, 11, 11, 44);
    c.draw_circle(5, 5, 0, Color::white());
    assert_eq!(painted(&buf, 44, 11, 11), vec![(4, 4), (6, 4), (5, 5), (4, 6), (6, 6)]);
}

#[test]
fn blit_copies_and_blends() {
    let src: Vec<u8> = vec![1, 2, 3, 255, 4, 5, 6, 0];
    let mut buf = vec![0u8; 64];
    let mut c = Canvas::new(&mut buf, 4, 4, 16);
    c.blit(1, 1, &src, 2, 1, 8, false);
    assert_eq!(pixel(&buf, 16, 1, 1), [1, 2, 3, 255]);
    assert_eq!(pixel(&buf, 16, 2, 1), [4, 5, 6, 0]);
    let mut buf = vec![0u8; 64];
    let mut c = Canvas::new(&mut buf, 4, 4, 16);
    c.blit(1, 1, &src, 2, 1, 8, true);
    assert_eq!(pixel(&buf, 16, 1, 1), [1, 2, 3, 255]);
    assert_eq!(pixel(&buf, 16, 2, 1), [0, 0, 0, 0]);
}

#[test]
fn blit_is_clipped() {
    let src: Vec<u8> = vec![9; 16];
    let mut buf = vec![0u8; 64];
    let mut c = Canvas::new(&mut buf, 4, 4, 16);
    c.blit(3, 3, &src, 2, 2, 8, false);
    assert_eq!(painted(&buf, 16, 4, 4), vec![(3, 3)]);
}

#[test]
fn draw_glyph_scales_alpha_by_coverage() {
    let mut buf = vec![0u8; 64];
    let mut c = Canvas::new(&mut buf, 4, 4, 16);
    let bitmap = [255u8, 0, 0, 128];
    c.draw_glyph(1, 3, 0, 0, 2, 2, &bitmap, Color::rgba(255, 255, 255, 255));
    assert_eq!(painted(&buf, 16, 4, 4), vec![(1, 1), (2, 2)]);
    assert_eq!(pixel(&buf, 16, 1, 1), [255, 255, 255, 255]);
    assert_eq!(pixel(&buf, 16, 2, 2), [128, 128, 128, 255]);
}

#[test]
fn text_extent_adds_advances() {
    assert_eq!(text_extent(&vec![5, 7, 3], &vec![10, 12, 9]), (15, 12));
    assert_eq!(text_extent(&vec![], &vec![]), (0, 0));
}

#[test]
fn image_from_rgba_and_draw() {
    let img = Image::from_rgba(2, 1, &[1, 2, 3, 255, 4, 5, 6, 255]);
    assert_eq!(img.data, vec![Color::rgba(1, 2, 3, 255), Color::rgba(4, 5, 6, 255)]);
    let mut buf = vec![0u8; 64];
    let mut c = Canvas::new(&mut buf, 4, 4, 16);
    img.draw(&mut c, 2, 3);
    assert_eq!(pixel(&buf, 16, 2, 3), [3, 2, 1, 255]);
    assert_eq!(pixel(&buf, 16, 3, 3), [6, 5, 4, 255]);
    assert_eq!(painted(&buf, 16, 4, 4).len(), 2);
}

#[test]
fn image_load_decodes_png() {
    let raw = image::RgbaImage::from_raw(2, 1, vec![1, 2, 3, 255, 4, 5, 6, 128]).unwrap();
    let mut png: Vec<u8> = Vec::new();
    raw.write_to(&mut std::io::Cursor::new(&mut png), image::ImageFormat::Png).unwrap();
    let img = Image::load("/ayux/media/wall.png", &png).unwrap();
    assert_eq!(img.width, 2);
    assert_eq!(img.height, 1);
    assert_eq!(img.data, vec![Color::rgba(1, 2, 3, 255), Color::rgba(4, 5, 6, 128)]);
    // The upper-case extension names the same format.
    assert!(Image::load("WALL.PNG", &png).is_ok());
    // The format comes from the extension, not from the content.
    assert!(Image::load("wall.jpg", &png).is_err());
    let err = |path: &str| match Image::load(path, &png) {
        Ok(_) => panic!("expected an error"),
        Err(e) => e,
    };
    assert_eq!(err("wall"), "The image format could not be determined");
    assert_eq!(err("wall."), "The image format could not be determined");
    assert_eq!(err("wall.foo"), "The file extension `.\"foo\"` was not recognized as an image format");
}

#[test]
fn image_load_refuses_garbage() {
    assert!(Image::load("x.png", &[1, 2, 3, 4]).is_err());
}
