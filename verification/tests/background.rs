use planarwm::background::{draw_pixels, pack_argb, solid_pixels, wallpaper_from_bytes, Wallpaper};
use planarwm::geometry::Position;

fn two_by_two() -> Wallpaper {
    // 2 x 2 image: red, green / blue, white (RGBA bytes)
    let rgba = vec![
        255, 0, 0, 255, 0, 255, 0, 255, //
        0, 0, 255, 255, 255, 255, 255, 128,
    ];
    Wallpaper::from_rgba(2, 2, &rgba)
}

#[test]
fn packing_puts_alpha_on_top() {
    assert_eq!(pack_argb(0x11, 0x22, 0x33, 0x44), 0x4411_2233);
    assert_eq!(pack_argb(0, 0, 0, 0), 0);
    assert_eq!(pack_argb(255, 255, 255, 255), 0xffff_ffff);
}

#[test]
fn rgba_image_becomes_argb_pixels() {
    let w = two_by_two();
    assert_eq!((w.width, w.height), (2, 2));
    assert_eq!(w.pixels, vec![0xffff_0000, 0xff00_ff00, 0xff00_00ff, 0x80ff_ffff]);
}

#[test]
fn sampling_wraps_around() {
    let w = two_by_two();
    assert_eq!(w.sample(0, 0), 0xffff_0000);
    assert_eq!(w.sample(3, 0), 0xff00_ff00);
    assert_eq!(w.sample(-1, -1), 0x80ff_ffff);
    assert_eq!(w.sample(-2, 5), 0xff00_00ff);
}

#[test]
fn render_tiles_from_the_camera() {
    let w = two_by_two();
    let out = w.render(Position { x: 1, y: 0 }, 3, 2);
    assert_eq!(
        out,
        vec![0xff00_ff00, 0xffff_0000, 0xff00_ff00, 0x80ff_ffff, 0xff00_00ff, 0x80ff_ffff]
    );
    let out = w.render(Position { x: -1, y: -3 }, 2, 1);
    assert_eq!(out, vec![0x80ff_ffff, 0xff00_00ff]);
}

#[test]
fn solid_fill() {
    assert_eq!(solid_pixels(0xff20_2020, 2, 3), vec![0xff20_2020; 6]);
    assert!(solid_pixels(1, 0, 5).is_empty());
}

#[test]
fn drawing_by_column_and_row() {
    let out = draw_pixels(3, 2, &|x: u32, y: u32| 10 * y + x);
    assert_eq!(out, vec![0, 1, 2, 10, 11, 12]);
    assert!(draw_pixels(0, 4, &|_x: u32, _y: u32| 1).is_empty());
}

fn png_of(width: u32, height: u32, rgba: Vec<u8>) -> Vec<u8> {
    let img = image::RgbaImage::from_raw(width, height, rgba).unwrap();
    let mut out = std::io::Cursor::new(Vec::new());
    img.write_to(&mut out, image::ImageFormat::Png).unwrap();
    out.into_inner()
}

#[test]
fn wallpaper_decodes_from_png_bytes() {
    let bytes = png_of(2, 1, vec![255, 0, 0, 255, 0, 0, 255, 128]);
    let w = wallpaper_from_bytes(&bytes, "png").unwrap();
    assert_eq!((w.width, w.height), (2, 1));
    assert_eq!(w.pixels, vec![0xffff_0000, 0x8000_00ff]);
}

#[test]
fn undecodable_bytes_give_no_wallpaper() {
    assert!(wallpaper_from_bytes(b"not an image", "png").is_none());
    assert!(wallpaper_from_bytes(&[], "png").is_none());
}

#[test]
fn the_extension_picks_the_format() {
    let bytes = png_of(1, 1, vec![1, 2, 3, 4]);
    assert!(wallpaper_from_bytes(&bytes, "PNG").is_some());
    assert!(wallpaper_from_bytes(&bytes, "").is_none());
    assert!(wallpaper_from_bytes(&bytes, "txt").is_none());
    assert!(wallpaper_from_bytes(&bytes, "jpg").is_none());
}
