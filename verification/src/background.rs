use vstd::prelude::*;
use vstd::arithmetic::div_mod::{lemma_fundamental_div_mod, lemma_fundamental_div_mod_converse};
use crate::geometry::Position;

verus! {

/// A decoded wallpaper image, one packed ARGB pixel per entry, row after row.
#[derive(Debug)]
pub struct Wallpaper {
    pub width: u32,
    pub height: u32,
    pub pixels: Vec<u32>,
}

/// A wallpaper that can be sampled: non-empty, with `i32` sides and one pixel per
/// cell.
pub open spec fn wallpaper_ok(w: &Wallpaper) -> bool {
    &&& 0 < w.width <= i32::MAX
    &&& 0 < w.height <= i32::MAX
    &&& w.pixels.len() == w.width * w.height
    &&& w.width * w.height <= u32::MAX
}

/// The pixel of a tiled wallpaper at (`x`, `y`): coordinates wrap around.
pub open spec fn tiled_index(width: int, height: int, x: int, y: int) -> int {
    (y % height) * width + (x % width)
}

/// `r`, `g`, `b`, `a` packed as ARGB.
pub open spec fn argb(r: u8, g: u8, b: u8, a: u8) -> int {
    (a as u32) * 0x100_0000 + (r as u32) * 0x1_0000 + (g as u32) * 0x100 + (b as u32)
}

/// Packs a pixel's channels into one ARGB word, alpha in the top byte.
pub fn pack_argb(r: u8, g: u8, b: u8, a: u8) -> (p: u32)
    ensures
        p == argb(r, g, b, a),
{
    let p = ((a as u32) << 24) | ((r as u32) << 16) | ((g as u32) << 8) | (b as u32);
    assert(((a as u32) << 24) | ((r as u32) << 16) | ((g as u32) << 8) | (b as u32) == (a as u32)
        * 0x100_0000 + (r as u32) * 0x1_0000 + (g as u32) * 0x100 + (b as u32)) by (bit_vector);
    p
}

/// `x` modulo a positive `m`, always in `0..m`.
fn rem_euclid(x: i32, m: i32) -> (r: i32)
    requires
        m > 0,
    ensures
        r == x as int % m as int,
        0 <= r < m,
{
    match x.checked_rem_euclid(m) {
        Some(r) => r,
        None => 0,
    }
}

proof fn lemma_mod_step(x: int, m: int)
    requires
        m > 0,
    ensures
        (x + 1) % m == (if x % m + 1 == m {
            0
        } else {
            x % m + 1
        }),
{
    lemma_fundamental_div_mod(x, m);
    let q = x / m;
    let r = x % m;
    assert(0 <= r < m);
    if r + 1 == m {
        assert(x + 1 == (q + 1) * m + 0) by (nonlinear_arith)
            requires
                x == m * q + r,
                r + 1 == m,
        ;
        lemma_fundamental_div_mod_converse(x + 1, m, q + 1, 0);
    } else {
        assert(x + 1 == q * m + (r + 1)) by (nonlinear_arith)
            requires
                x == m * q + r,
        ;
        lemma_fundamental_div_mod_converse(x + 1, m, q, r + 1);
    }
}

proof fn lemma_index_bound(row: int, col: int, w: int, h: int)
    requires
        0 <= row < h,
        0 <= col < w,
    ensures
        0 <= row * w + col < w * h,
        w * h == h * w,
{
    assert(w * h == h * w) by (nonlinear_arith);
    assert(0 <= row * w + col < w * h) by (nonlinear_arith)
        requires
            0 <= row < h,
            0 <= col < w,
    ;
}

impl Wallpaper {
    /// The wallpaper held by an RGBA image of the given size.
    pub fn from_rgba(width: u32, height: u32, rgba: &Vec<u8>) -> (w: Wallpaper)
        requires
            rgba.len() == 4 * (width * height),
        ensures
            w.width == width,
            w.height == height,
            w.pixels.len() == width * height,
            forall|i: int|
                0 <= i < width * height ==> #[trigger] w.pixels@[i] == argb(
                    rgba@[4 * i],
                    rgba@[4 * i + 1],
                    rgba@[4 * i + 2],
                    rgba@[4 * i + 3],
                ),
    {
        let n = rgba.len() / 4;
        let mut pixels: Vec<u32> = Vec::new();
        let mut i: usize = 0;
        while i < n
            invariant
                n == width * height,
                rgba.len() == 4 * n,
                0 <= i <= n,
                pixels.len() == i,
                forall|j: int|
                    0 <= j < i ==> #[trigger] pixels@[j] == argb(
                        rgba@[4 * j],
                        rgba@[4 * j + 1],
                        rgba@[4 * j + 2],
                        rgba@[4 * j + 3],
                    ),
            decreases n - i,
        {
            let p = pack_argb(rgba[4 * i], rgba[4 * i + 1], rgba[4 * i + 2], rgba[4 * i + 3]);
            pixels.push(p);
            i += 1;
        }
        Wallpaper { width, height, pixels }
    }

    /// The pixel at (`x`, `y`) of the wallpaper repeated in both directions.
    pub fn sample(&self, x: i32, y: i32) -> (p: u32)
        requires
            wallpaper_ok(self),
        ensures
            p == self.pixels@[tiled_index(self.width as int, self.height as int, x as int, y as int)],
    {
        let tx = rem_euclid(x, self.width as i32) as u32;
        let ty = rem_euclid(y, self.height as i32) as u32;
        proof {
            lemma_index_bound(ty as int, tx as int, self.width as int, self.height as int);
        }
        self.pixels[(ty * self.width + tx) as usize]
    }

    /// The pixels of a `width` x `height` view of the wallpaper tiled over the plane,
    /// with the view's corner at `camera_pos`, row after row.
    pub fn render(&self, camera_pos: Position, width: u32, height: u32) -> (out: Vec<u32>)
        requires
            wallpaper_ok(self),
            width * height <= usize::MAX,
        ensures
            out@.len() == height * width,
            forall|row: int, col: int|
                0 <= row < height && 0 <= col < width ==> #[trigger] out@[row * width + col]
                    == self.pixels@[tiled_index(
                    self.width as int,
                    self.height as int,
                    camera_pos.x + col,
                    camera_pos.y + row,
                )],
    {
        let w = self.width as i32;
        let h = self.height as i32;
        let mut out: Vec<u32> = Vec::new();
        let mut sy = rem_euclid(camera_pos.y, h);
        let mut y: u32 = 0;
        while y < height
            invariant
                wallpaper_ok(self),
                w == self.width,
                h == self.height,
                width * height <= usize::MAX,
                0 <= y <= height,
                0 <= sy < h,
                sy == (camera_pos.y + y) % (h as int),
                out@.len() == y * width,
                forall|row: int, col: int|
                    0 <= row < y && 0 <= col < width ==> #[trigger] out@[row * width + col]
                        == self.pixels@[tiled_index(
                        w as int,
                        h as int,
                        camera_pos.x + col,
                        camera_pos.y + row,
                    )],
            decreases height - y,
        {
            proof {
                lemma_index_bound(sy as int, 0, w as int, h as int);
            }
            let row_start = sy as usize * self.width as usize;
            let mut sx = rem_euclid(camera_pos.x, w);
            let mut x: u32 = 0;
            let ghost before = out@;
            while x < width
                invariant
                    wallpaper_ok(self),
                    w == self.width,
                    h == self.height,
                    width * height <= usize::MAX,
                    0 <= y < height,
                    0 <= x <= width,
                    0 <= sy < h,
                    sy == (camera_pos.y + y) % (h as int),
                    row_start == sy * self.width,
                    0 <= sx < w,
                    sx == (camera_pos.x + x) % (w as int),
                    before.len() == y * width,
                    out@.len() == y * width + x,
                    forall|k: int| 0 <= k < before.len() ==> out@[k] == before[k],
                    forall|col: int|
                        0 <= col < x ==> #[trigger] out@[y * width + col] == self.pixels@[tiled_index(
                            w as int,
                            h as int,
                            camera_pos.x + col,
                            camera_pos.y + y,
                        )],
                decreases width - x,
            {
                proof {
                    lemma_index_bound(sy as int, sx as int, w as int, h as int);
                }
                out.push(self.pixels[row_start + sx as usize]);
                proof {
                    lemma_mod_step(camera_pos.x + x, w as int);
                }
                x += 1;
                sx += 1;
                if sx >= w {
                    sx = 0;
                }
            }
            proof {
                assert forall|row: int, col: int|
                    0 <= row < y + 1 && 0 <= col < width implies #[trigger] out@[row * width + col]
                        == self.pixels@[tiled_index(
                        w as int,
                        h as int,
                        camera_pos.x + col,
                        camera_pos.y + row,
                    )] by {
                    if row < y {
                        lemma_index_bound(row, col, width as int, y as int);
                        assert(out@[row * width + col] == before[row * width + col]);
                    }
                }
                lemma_mod_step(camera_pos.y + y, h as int);
                assert((y + 1) * width == y * width + width) by (nonlinear_arith);
            }
            y += 1;
            sy += 1;
            if sy >= h {
                sy = 0;
            }
        }
        out
    }
}

/// A `width` x `height` buffer of one colour.
pub fn solid_pixels(color: u32, width: u32, height: u32) -> (out: Vec<u32>)
    requires
        width * height <= usize::MAX,
    ensures
        out@.len() == width * height,
        forall|i: int| 0 <= i < width * height ==> #[trigger] out@[i] == color,
{
    let n = width as usize * height as usize;
    let mut out: Vec<u32> = Vec::new();
    let mut i: usize = 0;
    while i < n
        invariant
            n == width * height,
            0 <= i <= n,
            out@.len() == i,
            forall|j: int| 0 <= j < i ==> #[trigger] out@[j] == color,
        decreases n - i,
    {
        out.push(color);
        i += 1;
    }
    out
}


/// A `width` x `height` buffer, row after row, where each pixel is the colour that
/// `f` gives for its column and row.
pub fn draw_pixels<F: Fn(u32, u32) -> u32>(width: u32, height: u32, f: &F) -> (out: Vec<u32>)
    requires
        width * height <= usize::MAX,
        forall|x: u32, y: u32| call_requires(*f, (x, y)),
    ensures
        out@.len() == height * width,
        forall|row: int, col: int|
            0 <= row < height && 0 <= col < width ==> call_ensures(
                *f,
                (col as u32, row as u32),
                #[trigger] out@[row * width + col],
            ),
{
    let mut out: Vec<u32> = Vec::new();
    let mut y: u32 = 0;
    while y < height
        invariant
            0 <= y <= height,
            forall|x: u32, yy: u32| call_requires(*f, (x, yy)),
            out@.len() == y * width,
            forall|row: int, col: int|
                0 <= row < y && 0 <= col < width ==> call_ensures(
                    *f,
                    (col as u32, row as u32),
                    #[trigger] out@[row * width + col],
                ),
        decreases height - y,
    {
        let ghost before = out@;
        let mut x: u32 = 0;
        while x < width
            invariant
                0 <= y < height,
                0 <= x <= width,
                forall|xx: u32, yy: u32| call_requires(*f, (xx, yy)),
                before.len() == y * width,
                out@.len() == y * width + x,
                forall|k: int| 0 <= k < before.len() ==> out@[k] == before[k],
                forall|col: int|
                    0 <= col < x ==> call_ensures(*f, (col as u32, y), #[trigger] out@[y * width + col]),
            decreases width - x,
        {
            let c = f(x, y);
            out.push(c);
            x += 1;
        }
        proof {
            assert((y + 1) * width == y * width + width) by (nonlinear_arith);
            assert forall|row: int, col: int|
                0 <= row < y + 1 && 0 <= col < width implies call_ensures(
                *f,
                (col as u32, row as u32),
                #[trigger] out@[row * width + col],
            ) by {
                if row < y {
                    assert(row * width + col < y * width) by (nonlinear_arith)
                        requires
                            0 <= row < y,
                            0 <= col < width,
                    ;
                    assert(out@[row * width + col] == before[row * width + col]);
                }
            }
        }
        y += 1;
    }
    out
}


/// The width, height and RGBA bytes (row after row, four per pixel) of the image
/// that `bytes` encode in the format that the file extension `extension` names, as
/// the `image` crate decodes it; `None` when the extension names no format or the
/// bytes do not decode.
pub uninterp spec fn decoded_rgba(extension: Seq<char>, bytes: Seq<u8>) -> Option<(u32, u32, Seq<u8>)>;

/// `image::ImageFormat::from_extension` on `extension` (the format that a file
/// with that extension is read as), then `image::load_from_memory_with_format` on
/// `bytes` in that format and `DynamicImage::to_rgba8`, taken apart into its size
/// and raw bytes. The contract only names the result: it depends on the extension
/// and the bytes alone; an unknown extension or a decoding error gives `None`.
#[verifier::external_body]
fn decode_rgba(bytes: &[u8], extension: &str) -> (r: Option<(u32, u32, Vec<u8>)>)
    ensures
        match r {
            Some((w, h, px)) => decoded_rgba(extension@, bytes@) == Some((w, h, px@)),
            None => decoded_rgba(extension@, bytes@) is None,
        },
{
    let format = image::ImageFormat::from_extension(extension)?;
    match image::load_from_memory_with_format(bytes, format) {
        Ok(img) => {
            let rgba = img.to_rgba8();
            let (w, h) = rgba.dimensions();
            Some((w, h, rgba.into_raw()))
        },
        Err(_) => None,
    }
}

/// The wallpaper in the encoded image `bytes`, read in the format that the file
/// extension `extension` names: `None` when the extension names no format, the
/// image does not decode, or its bytes are not four per pixel.
pub fn wallpaper_from_bytes(bytes: &[u8], extension: &str) -> (r: Option<Wallpaper>)
    ensures
        match decoded_rgba(extension@, bytes@) {
            Some((w, h, px)) => if px.len() == 4 * (w * h) {
                &&& r is Some
                &&& r->0.width == w
                &&& r->0.height == h
                &&& r->0.pixels@.len() == w * h
                &&& forall|i: int|
                    0 <= i < w * h ==> #[trigger] r->0.pixels@[i] == argb(
                        px[4 * i],
                        px[4 * i + 1],
                        px[4 * i + 2],
                        px[4 * i + 3],
                    )
            } else {
                r is None
            },
            None => r is None,
        },
{
    match decode_rgba(bytes, extension) {
        Some((w, h, px)) => {
            assert((w as u128) * (h as u128) <= 0xffff_ffff_ffff_ffffu128 * 0xffff_ffffu128) by (nonlinear_arith)
                requires
                    w <= 0xffff_ffffu32,
                    h <= 0xffff_ffffu32,
            ;
            let n: u128 = (w as u128) * (h as u128);
            if (px.len() as u128) == 4 * n {
                Some(Wallpaper::from_rgba(w, h, &px))
            } else {
                None
            }
        },
        None => None,
    }
}

}
