//! Decoded images: RGBA pixels in row-major order, drawn onto a canvas.
use vstd::prelude::*;

use crate::canvas::{Canvas, paint_each, paint_pixel};
use crate::rect::Rect;
use crate::strs::last_pos;
use crate::color::Color;

verus! {

/// What the `image` crate makes of the bytes of an image file whose name
/// has the extension `ext`, converted to 8 bits per RGBA channel: width,
/// height and the pixel bytes, or the message of the error.
pub uninterp spec fn decoded_rgba(bytes: Seq<u8>, ext: Seq<char>) -> Result<(u32, u32, Seq<u8>), Seq<char>>;

/// Decodes as `image::open` does for a file with extension `ext` once the
/// file is read: `ImageFormat::from_extension` picks the format, an
/// extension naming none being the crate's own "not recognized" error;
/// `load_from_memory_with_format` decodes; then `DynamicImage::to_rgba8`.
/// The outcome depends on the arguments alone and is named by
/// `decoded_rgba`; of a decoded image the contract adds what an
/// `ImageBuffer` always keeps: at least four bytes for each pixel.
#[verifier::external_body]
fn decode_rgba_as(bytes: &[u8], ext: &str) -> (r: Result<(u32, u32, Vec<u8>), String>)
    ensures
        match r {
            Ok((w, h, data)) => decoded_rgba(bytes@, ext@) == Ok::<(u32, u32, Seq<u8>), Seq<char>>((w, h, data@))
                && data@.len() >= 4 * w * h,
            Err(e) => decoded_rgba(bytes@, ext@) == Err::<(u32, u32, Seq<u8>), Seq<char>>(e@),
        },
{
    let decoded = match ::image::ImageFormat::from_extension(ext) {
        Some(format) => ::image::load_from_memory_with_format(bytes, format),
        None => Err(::image::ImageError::Unsupported(::image::error::ImageFormatHint::PathExtension(ext.into()).into())),
    };
    match decoded {
        Ok(img) => {
            let rgba = img.to_rgba8();
            let (w, h) = rgba.dimensions();
            Ok((w, h, rgba.into_raw()))
        },
        Err(e) => Err(e.to_string()),
    }
}

/// Decodes as `image::open` does for a file without an extension:
/// `ImageReader::decode` on a reader that has no format, which the crate
/// refuses, whatever the bytes, with its error for an undetermined format.
#[verifier::external_body]
fn decode_rgba_unknown(bytes: &[u8]) -> (r: Result<(u32, u32, Vec<u8>), String>)
    ensures
        match r {
            Ok(_) => false,
            Err(m) => m@ == "The image format could not be determined"@,
        },
{
    match ::image::ImageReader::new(std::io::Cursor::new(bytes)).decode() {
        Ok(img) => {
            let rgba = img.to_rgba8();
            let (w, h) = rgba.dimensions();
            Ok((w, h, rgba.into_raw()))
        },
        Err(e) => Err(e.to_string()),
    }
}

/// The extension of the last component of `path`, as
/// `std::path::Path::extension` finds it.
pub uninterp spec fn path_extension(path: Seq<char>) -> Option<Seq<char>>;

/// The text after the last `/` of a path (all of it if there is none).
pub open spec fn final_text(path: Seq<char>) -> Seq<char> {
    path.skip(last_pos(path, '/') + 1)
}

/// A final component that `Path::file_name` returns as it stands: not
/// empty, `.` or `..`.
pub open spec fn is_plain_name(name: Seq<char>) -> bool {
    name.len() > 0 && name != "."@ && name != ".."@
}

/// The extension of a file name as `Path::extension` documents it: none
/// without a `.`, none for a name whose only `.` is its first character,
/// otherwise the text after the last `.`.
pub open spec fn name_extension(name: Seq<char>) -> Option<Seq<char>> {
    if last_pos(name, '.') <= 0 {
        None
    } else {
        Some(name.skip(last_pos(name, '.') + 1))
    }
}

/// `Path::extension` of `path`, as text (`OsStr::to_string_lossy`); the
/// result is named by `path_extension`, a function of the path alone. Where
/// the text after the last `/` is a plain name, it is that name's
/// extension as the documentation of `Path::extension` describes it.
#[verifier::external_body]
fn file_extension(path: &str) -> (r: Option<String>)
    ensures
        match r {
            Some(e) => path_extension(path@) == Some(e@),
            None => path_extension(path@) is None,
        },
        is_plain_name(final_text(path@)) ==> match name_extension(final_text(path@)) {
            Some(e) => r is Some && r->0@ == e,
            None => r is None,
        },
{
    std::path::Path::new(path).extension().map(|e| e.to_string_lossy().into_owned())
}

/// The extension that decides an image file's format: the path's
/// extension, unless there is none or it is empty.
pub open spec fn format_extension(path: Seq<char>) -> Option<Seq<char>> {
    match path_extension(path) {
        Some(e) => if e.len() > 0 { Some(e) } else { None },
        None => None,
    }
}

/// The `width * height` colours held by RGBA bytes, row by row.
pub open spec fn rgba_pixels(width: nat, height: nat, bytes: Seq<u8>) -> Seq<Color> {
    Seq::new(
        width * height,
        |i: int| Color { r: bytes[4 * i], g: bytes[4 * i + 1], b: bytes[4 * i + 2], a: bytes[4 * i + 3] },
    )
}

/// An image: `width * height` colours, row by row.
pub struct Image {
    pub width: u32,
    pub height: u32,
    pub data: Vec<Color>,
}

impl Image {
    /// Every pixel has its colour.
    pub open spec fn wf(&self) -> bool {
        self.data@.len() == self.width * self.height
    }

    /// The colour of pixel `(ix, iy)`.
    pub open spec fn pixel(&self, ix: int, iy: int) -> Color {
        self.data@[iy * self.width + ix]
    }

    /// The image held by RGBA bytes (four per pixel, row by row).
    pub fn from_rgba(width: u32, height: u32, rgba: &[u8]) -> (img: Image)
        requires
            rgba@.len() >= 4 * width * height,
        ensures
            img.wf(),
            img.width == width,
            img.height == height,
            img.data@ == rgba_pixels(width as nat, height as nat, rgba@),
    {
        let mut data: Vec<Color> = Vec::new();
        let n = rgba.len();
        proof {
            assert(4 * width * height == 4 * (width * height)) by (nonlinear_arith);
        }
        let mut y: u32 = 0;
        while y < height
            invariant
                rgba@.len() >= 4 * (width * height),
                n == rgba@.len(),
                y <= height,
                data@.len() == y * width,
                forall|i: int| 0 <= i < data@.len() ==> #[trigger] data@[i] == rgba_pixels(width as nat, height as nat, rgba@)[i],
            decreases height - y,
        {
            let mut x: u32 = 0;
            while x < width
                invariant
                    rgba@.len() >= 4 * (width * height),
                    n == rgba@.len(),
                    y < height,
                    x <= width,
                    data@.len() == y * width + x,
                    forall|i: int| 0 <= i < data@.len() ==> #[trigger] data@[i] == rgba_pixels(width as nat, height as nat, rgba@)[i],
                decreases width - x,
            {
                proof {
                    assert(y * width + x < width * height) by (nonlinear_arith)
                        requires
                            x < width,
                            y < height,
                    ;
                }
                let o = 4 * data.len();
                let c = Color::rgba(rgba[o], rgba[o + 1], rgba[o + 2], rgba[o + 3]);
                data.push(c);
                x = x + 1;
            }
            proof {
                assert((y + 1) * width == y * width + width) by (nonlinear_arith);
            }
            y = y + 1;
        }
        proof {
            assert(height * width == width * height) by (nonlinear_arith);
            assert(data@ =~= rgba_pixels(width as nat, height as nat, rgba@));
        }
        Image { width, height, data }
    }

    /// Decodes the bytes of the image file at `path` with the `image` crate
    /// into RGBA colours; the format is the one the file-name extension
    /// names, as `image::open` takes it.
    pub fn load(path: &str, bytes: &[u8]) -> (r: Result<Image, String>)
        ensures
            match format_extension(path@) {
                Some(ext) => match decoded_rgba(bytes@, ext) {
                    Ok((w, h, data)) => r matches Ok(img) && img.wf() && img.width == w && img.height == h
                        && img.data@ == rgba_pixels(w as nat, h as nat, data),
                    Err(e) => r matches Err(m) && m@ == e,
                },
                None => r matches Err(m) && m@ == "The image format could not be determined"@,
            },
            is_plain_name(final_text(path@)) ==> format_extension(path@) == match name_extension(final_text(path@)) {
                Some(e) => if e.len() > 0 { Some(e) } else { None::<Seq<char>> },
                None => None::<Seq<char>>,
            },
    {
        let ext = file_extension(path);
        let decoded = match &ext {
            Some(e) => if e.unicode_len() > 0 {
                decode_rgba_as(bytes, e.as_str())
            } else {
                decode_rgba_unknown(bytes)
            },
            None => decode_rgba_unknown(bytes),
        };
        match decoded {
            Ok((w, h, data)) => {
                proof {
                    assert(format_extension(path@) is Some);
                }
                Ok(Image::from_rgba(w, h, data.as_slice()))
            },
            Err(e) => Err(e),
        }
    }

    /// Draws the image with its top-left corner at `(x, y)`, pixel by
    /// pixel, as `put_pixel` does.
    #[verifier::rlimit(40)]
    pub fn draw(&self, canvas: &mut Canvas, x: i32, y: i32)
        requires
            self.wf(),
            old(canvas).wf(),
            self.width <= i32::MAX,
            self.height <= i32::MAX,
            x + self.width <= i32::MAX + 1,
            y + self.height <= i32::MAX + 1,
        ensures
            final(canvas).wf(),
            final(canvas).width == old(canvas).width,
            final(canvas).height == old(canvas).height,
            final(canvas).pitch == old(canvas).pitch,
            final(canvas).clip_rect == old(canvas).clip_rect,
            final(canvas).buffer@ == paint_each(old(canvas).buffer@, old(canvas).pitch as int,
                |a: int, b: int| old(canvas).clip_rect.has(a, b) && x <= a < x + self.width && y <= b < y + self.height,
                |a: int, b: int| self.pixel(a - x, b - y)),
            final(canvas).buffer@ == put_pixels(old(canvas).buffer@, old(canvas).pitch as int, old(canvas).clip_rect,
                *self, x as int, y as int, (self.width * self.height) as nat),
    {
        proof {
            lemma_draw_is_put_pixels(*self, canvas.buffer@, canvas.pitch as int, canvas.clip_rect, x as int, y as int);
        }
        let ghost b0 = canvas.buffer@;
        let ghost p = canvas.pitch as int;
        let ghost clip = canvas.clip_rect;
        let ghost w = self.width as int;
        let ghost h = self.height as int;
        let ghost colors = |a: int, b: int| self.pixel(a - x, b - y);
        let n = self.data.len();
        proof {
            assert(paint_each(b0, p, |a: int, b: int| clip.has(a, b) && x <= a < x + w && y <= b < y + 0, colors) =~= b0);
        }
        let mut iy: u32 = 0;
        while iy < self.height
            invariant
                self.wf(),
                canvas.wf(),
                canvas.pitch as int == p,
                canvas.clip_rect == clip,
                old(canvas).width == canvas.width && old(canvas).height == canvas.height,
                w == self.width && h == self.height,
                self.width <= i32::MAX,
                self.height <= i32::MAX,
                x + self.width <= i32::MAX + 1,
                y + self.height <= i32::MAX + 1,
                colors == (|a: int, b: int| self.pixel(a - x, b - y)),
                n == self.data@.len(),
                iy <= self.height,
                canvas.buffer@ == paint_each(b0, p, |a: int, b: int| clip.has(a, b) && x <= a < x + w && y <= b < y + iy, colors),
            decreases self.height - iy,
        {
            let mut ix: u32 = 0;
            proof {
                crate::canvas::lemma_paint_each_same(b0, p,
                    |a: int, b: int| clip.has(a, b) && x <= a < x + w && y <= b < y + iy,
                    |a: int, b: int| clip.has(a, b) && x <= a < x + w && y <= b <= y + iy && (b < y + iy || a < x + 0), colors);
            }
            while ix < self.width
                invariant
                    self.wf(),
                    canvas.wf(),
                    canvas.pitch as int == p,
                    canvas.clip_rect == clip,
                    old(canvas).width == canvas.width && old(canvas).height == canvas.height,
                    w == self.width && h == self.height,
                    self.width <= i32::MAX,
                    self.height <= i32::MAX,
                    x + self.width <= i32::MAX + 1,
                    y + self.height <= i32::MAX + 1,
                    colors == (|a: int, b: int| self.pixel(a - x, b - y)),
                    n == self.data@.len(),
                    iy < self.height,
                    ix <= self.width,
                    canvas.buffer@ == paint_each(b0, p,
                        |a: int, b: int| clip.has(a, b) && x <= a < x + w && y <= b <= y + iy && (b < y + iy || a < x + ix), colors),
                decreases self.width - ix,
            {
                proof {
                    assert(iy * self.width + ix < self.width * self.height) by (nonlinear_arith)
                        requires
                            ix < self.width,
                            iy < self.height,
                    ;
                }
                assert(iy * self.width + ix < n);
                let idx = iy as usize * self.width as usize + ix as usize;
                let color = self.data[idx];
                let px_x = x + ix as i32;
                let px_y = y + iy as i32;
                let ghost before = canvas.buffer@;
                let ghost cur = |a: int, b: int| clip.has(a, b) && x <= a < x + w && y <= b <= y + iy && (b < y + iy || a < x + ix);
                let ghost next = |a: int, b: int| clip.has(a, b) && x <= a < x + w && y <= b <= y + iy && (b < y + iy || a < x + ix + 1);
                proof {
                    assert(color == colors(px_x as int, px_y as int));
                }
                canvas.put_pixel(px_x, px_y, color);
                proof {
                    if clip.has(px_x as int, px_y as int) {
                        crate::canvas::lemma_paint_each_step(b0, p, cur, colors, px_x as int, px_y as int);
                        crate::canvas::lemma_paint_each_same(b0, p,
                            |a: int, b: int| cur(a, b) || (a == px_x && b == px_y), next, colors);
                    } else {
                        crate::canvas::lemma_paint_each_same(b0, p, cur, next, colors);
                    }
                }
                ix = ix + 1;
            }
            proof {
                crate::canvas::lemma_paint_each_same(b0, p,
                    |a: int, b: int| clip.has(a, b) && x <= a < x + w && y <= b <= y + iy && (b < y + iy || a < x + ix),
                    |a: int, b: int| clip.has(a, b) && x <= a < x + w && y <= b < y + iy + 1, colors);
            }
            iy = iy + 1;
        }
    }
}

/// The buffer after `put_pixel` has drawn the first `k` pixels of `img`,
/// row by row and left to right, with the image's top-left corner at
/// `(x, y)`.
pub open spec fn put_pixels(buf: Seq<u8>, pitch: int, clip: Rect, img: Image, x: int, y: int, k: nat) -> Seq<u8>
    decreases k,
{
    if k == 0 || img.width == 0 {
        buf
    } else {
        let j = k - 1;
        let ix = j % (img.width as int);
        let iy = j / (img.width as int);
        paint_pixel(put_pixels(buf, pitch, clip, img, x, y, (k - 1) as nat), pitch, clip, x + ix, y + iy, img.pixel(ix, iy))
    }
}

/// The first `k` pixels, drawn one by one, are the pixels of the image
/// whose row-major index is below `k`, each drawn once over the old buffer.
proof fn lemma_put_pixels_prefix(buf: Seq<u8>, pitch: int, clip: Rect, img: Image, x: int, y: int, k: nat)
    requires
        img.width > 0,
        k <= img.width * img.height,
    ensures
        put_pixels(buf, pitch, clip, img, x, y, k) == paint_each(buf, pitch,
            |a: int, b: int| clip.has(a, b) && x <= a < x + img.width && y <= b < y + img.height
                && (b - y) * img.width + (a - x) < k,
            |a: int, b: int| img.pixel(a - x, b - y)),
    decreases k,
{
    let w = img.width as int;
    let h = img.height as int;
    let colors = |a: int, b: int| img.pixel(a - x, b - y);
    let pk = |a: int, b: int| clip.has(a, b) && x <= a < x + w && y <= b < y + h && (b - y) * w + (a - x) < k;
    if k == 0 {
        assert forall|a: int, b: int| !#[trigger] pk(a, b) by {
            if x <= a && y <= b {
                assert((b - y) * w >= 0) by (nonlinear_arith)
                    requires
                        b - y >= 0,
                        w > 0,
                ;
            }
        }
        assert(paint_each(buf, pitch, pk, colors) =~= buf);
    } else {
        let j = k - 1;
        let ix = j % w;
        let iy = j / w;
        lemma_put_pixels_prefix(buf, pitch, clip, img, x, y, (k - 1) as nat);
        let pj = |a: int, b: int| clip.has(a, b) && x <= a < x + w && y <= b < y + h && (b - y) * w + (a - x) < j;
        let prev = put_pixels(buf, pitch, clip, img, x, y, (k - 1) as nat);
        assert(prev == paint_each(buf, pitch, pj, colors));
        vstd::arithmetic::div_mod::lemma_fundamental_div_mod(j, w);
        assert(0 <= ix < w);
        assert(iy >= 0) by (nonlinear_arith)
            requires
                j >= 0,
                w > 0,
                iy == j / w,
        ;
        assert(iy * w + ix == j) by (nonlinear_arith)
            requires
                j == w * iy + ix,
        ;
        assert(iy < h) by (nonlinear_arith)
            requires
                iy * w + ix == j,
                j < w * h,
                ix >= 0,
                w > 0,
        ;
        let (qx, qy) = (x + ix, y + iy);
        assert(colors(qx, qy) == img.pixel(ix, iy));
        // Pixel (a, b) of the image has index j exactly when it is (qx, qy).
        assert forall|a: int, b: int| #[trigger] pk(a, b) == (pj(a, b) || (clip.has(qx, qy) && a == qx && b == qy)) by {
            if x <= a < x + w && y <= b < y + h && (b - y) * w + (a - x) == j {
                vstd::arithmetic::div_mod::lemma_fundamental_div_mod_converse(j, w, b - y, a - x);
            }
        }
        if clip.has(qx, qy) {
            assert(!pj(qx, qy));
            crate::canvas::lemma_paint_each_step(buf, pitch, pj, colors, qx, qy);
            crate::canvas::lemma_paint_each_same(buf, pitch,
                |a: int, b: int| pj(a, b) || (a == qx && b == qy), pk, colors);
        } else {
            crate::canvas::lemma_paint_each_same(buf, pitch, pj, pk, colors);
        }
    }
}

/// Drawing an image is drawing its pixels one by one with `put_pixel`, row
/// by row and left to right: every pixel of the image that lies in the clip
/// rectangle is drawn once over the old buffer, and nothing else changes.
pub proof fn lemma_draw_is_put_pixels(img: Image, buf: Seq<u8>, pitch: int, clip: Rect, x: int, y: int)
    ensures
        put_pixels(buf, pitch, clip, img, x, y, (img.width * img.height) as nat) == paint_each(buf, pitch,
            |a: int, b: int| clip.has(a, b) && x <= a < x + img.width && y <= b < y + img.height,
            |a: int, b: int| img.pixel(a - x, b - y)),
{
    let w = img.width as int;
    let h = img.height as int;
    let colors = |a: int, b: int| img.pixel(a - x, b - y);
    let rect = |a: int, b: int| clip.has(a, b) && x <= a < x + w && y <= b < y + h;
    if w == 0 {
        assert(paint_each(buf, pitch, rect, colors) =~= buf);
    } else {
        assert(w * h >= 0) by (nonlinear_arith)
            requires
                w > 0,
                h >= 0,
        ;
        let n = (w * h) as nat;
        lemma_put_pixels_prefix(buf, pitch, clip, img, x, y, n);
        let pn = |a: int, b: int| clip.has(a, b) && x <= a < x + w && y <= b < y + h && (b - y) * w + (a - x) < n;
        assert forall|a: int, b: int| #[trigger] pn(a, b) == rect(a, b) by {
            if x <= a < x + w && y <= b < y + h {
                assert((b - y) * w + (a - x) < w * h) by (nonlinear_arith)
                    requires
                        0 <= b - y < h,
                        0 <= a - x < w,
                ;
            }
        }
        crate::canvas::lemma_paint_each_same(buf, pitch, pn, rect, colors);
    }
}

} // verus!
