//! Headless image export: the latest exported frame with its number and
//! file extension, the file path it is saved under, and its WebP `data:`
//! URL for browsers.

use vstd::prelude::*;

use crate::codec::{
    base64_standard, data_url_text, frame_data_url, rgba_encoding, rgba_len,
    ImageEncoding, RgbaFrame,
};
use crate::decimal::{all_digits, digits_value, lemma_digits_order, lemma_six_places, law_zero_padded_value, zero_padded};
use crate::frame_capture::blank_pixels;

verus! {

/// The latest exported frame.
pub struct CurrImage {
    /// The frame's pixels.
    pub img_buffer: RgbaFrame,
    /// The number of the frame.
    pub frame_id: u64,
    /// The file extension the frame is saved with; empty until a frame arrives.
    pub extension: String,
}

impl Default for CurrImage {
    fn default() -> (c: CurrImage)
        ensures
            c.img_buffer.spec_width() == 0,
            c.img_buffer.spec_height() == 0,
            c.img_buffer.buffer().len() == 0,
            c.frame_id == 0,
            c.extension@ == Seq::<char>::empty(),
    {
        CurrImage { img_buffer: RgbaFrame::new(0, 0), frame_id: 0, extension: String::new() }
    }
}

/// The path a frame is saved under: `{dir}/{frame_id:06}.{extension}`.
pub open spec fn frame_path(dir: Seq<char>, frame_id: u64, extension: Seq<char>) -> Seq<char> {
    dir + "/"@ + zero_padded(frame_id as nat, 6) + "."@ + extension
}

impl CurrImage {
    /// Takes a newly exported frame: its number and extension always, and
    /// its pixels (`width * height` RGBA8 pixels read from `image_bytes`)
    /// when `image_bytes` holds enough of them; otherwise the previous
    /// pixels stay. Returns whether the pixels were taken.
    pub fn update_data(
        &mut self,
        frame_id: u64,
        width: u32,
        height: u32,
        image_bytes: &[u8],
        extension: String,
    ) -> (taken: bool)
        ensures
            final(self).frame_id == frame_id,
            final(self).extension@ == extension@,
            taken <==> (4 * (width as int) <= usize::MAX && rgba_len(width, height)
                <= image_bytes@.len()),
            taken ==> final(self).img_buffer.spec_width() == width
                && final(self).img_buffer.spec_height() == height
                && final(self).img_buffer.buffer() == image_bytes@,
            !taken ==> final(self).img_buffer == old(self).img_buffer,
    {
        self.frame_id = frame_id;
        self.extension = extension;
        let bytes = vstd::slice::slice_to_vec(image_bytes);
        match RgbaFrame::from_raw(width, height, bytes) {
            Some(frame) => {
                self.img_buffer = frame;
                true
            },
            None => false,
        }
    }

    /// The path the frame is saved under in `dir`: the frame number padded
    /// with zeros to six digits, then the extension.
    pub fn create_path(&self, dir: &str) -> (p: String)
        ensures
            p@ == frame_path(dir@, self.frame_id, self.extension@),
    {
        let mut p = dir.to_owned();
        p.append("/");
        let digits = crate::decimal::format_u64_padded(self.frame_id, 6);
        p.append(digits.as_str());
        p.append(".");
        p.append(self.extension.as_str());
        p
    }

    /// The frame as a WebP `data:` URL.
    pub fn to_web_base64(&self) -> (r: Result<String, image::ImageError>)
        ensures
            match rgba_encoding(
                self.img_buffer.pixels(),
                self.img_buffer.spec_width(),
                self.img_buffer.spec_height(),
                ImageEncoding::WebP,
            ) {
                Some(file) => r matches Ok(s) && s@ == data_url_text(
                    "image/webp"@,
                    base64_standard(file),
                ),
                None => r is Err,
            },
    {
        base64_browser_img(&self.img_buffer)
    }
}

/// The size of the scene that is rendered and exported.
#[derive(Debug)]
pub struct SceneInfo {
    width: u32,
    height: u32,
}

impl Default for SceneInfo {
    fn default() -> (s: SceneInfo)
        ensures
            s.dimensions_spec() == (0u32, 0u32),
    {
        SceneInfo { width: 0, height: 0 }
    }
}

impl SceneInfo {
    /// The width and height.
    pub closed spec fn dimensions_spec(self) -> (u32, u32) {
        (self.width, self.height)
    }

    /// A scene of the given size.
    pub fn new(width: u32, height: u32) -> (s: SceneInfo)
        ensures
            s.dimensions_spec() == (width, height),
    {
        SceneInfo { width, height }
    }

    /// The width and height; also the size of the render target.
    pub fn dimensions(&self) -> (d: (u32, u32))
        ensures
            d == self.dimensions_spec(),
    {
        (self.width, self.height)
    }
}

/// A WebP `data:` URL of a frame.
pub fn base64_browser_img(img: &RgbaFrame) -> (r: Result<String, image::ImageError>)
    ensures
        match rgba_encoding(img.pixels(), img.spec_width(), img.spec_height(), ImageEncoding::WebP) {
            Some(file) => r matches Ok(s) && s@ == data_url_text("image/webp"@, base64_standard(file)),
            None => r is Err,
        },
{
    frame_data_url(img, ImageEncoding::WebP)
}

/// A WebP `data:` URL of a fresh frame of the given size (every pixel zero).
/// The frame must fit in memory.
pub fn white_img_placeholder(w: u32, h: u32) -> (r: Result<String, image::ImageError>)
    requires
        4 * (w as int) <= usize::MAX,
        rgba_len(w, h) <= usize::MAX,
    ensures
        match rgba_encoding(blank_pixels(w, h), w, h, ImageEncoding::WebP) {
            Some(file) => r matches Ok(s) && s@ == data_url_text("image/webp"@, base64_standard(file)),
            None => r is Err,
        },
{
    let img = RgbaFrame::new(w, h);
    assert(img.pixels() =~= blank_pixels(w, h));
    base64_browser_img(&img)
}

/// The path of a frame is the given directory, a `/`, at least six digits
/// that denote the frame number (exactly six below a million), a `.` and
/// the extension.
pub proof fn law_frame_path_parts(dir: Seq<char>, id: u64, extension: Seq<char>)
    ensures
        ({
            let p = frame_path(dir, id, extension);
            let digits = p.subrange(dir.len() + 1int, p.len() - extension.len() - 1);
            &&& p.subrange(0, dir.len() as int) == dir
            &&& p[dir.len() as int] == '/'
            &&& p[p.len() - extension.len() - 1] == '.'
            &&& p.subrange(p.len() - extension.len(), p.len() as int) == extension
            &&& all_digits(digits)
            &&& digits_value(digits) == id
            &&& digits.len() >= 6
            &&& (id < 1_000_000 ==> digits.len() == 6)
        }),
{
    let d = zero_padded(id as nat, 6);
    law_zero_padded_value(id as nat, 6);
    if id < 1_000_000 {
        lemma_six_places(id as nat);
    }
    reveal_strlit("/");
    reveal_strlit(".");
    let p = frame_path(dir, id, extension);
    assert(p =~= dir + seq!['/'] + d + seq!['.'] + extension);
    assert(p.subrange(0, dir.len() as int) =~= dir);
    assert(p.subrange(dir.len() + 1int, p.len() - extension.len() - 1) =~= d);
    assert(p.subrange(p.len() - extension.len(), p.len() as int) =~= extension);
}

/// `x` comes before `y` in character order (as `String`s compare).
pub open spec fn text_less(x: Seq<char>, y: Seq<char>) -> bool {
    exists|i: int|
        0 <= i <= x.len() && i <= y.len() && #[trigger] x.subrange(0, i) == y.subrange(0, i) && (
        (i == x.len() && i < y.len()) || (i < x.len() && i < y.len() && (x[i] as int) < (
        y[i] as int)))
}

/// Frame paths sort like frame numbers below a million: with the same
/// directory and extension, the path of an earlier frame comes first.
/// (From a million on the number is written in full, with more digits.)
pub proof fn law_frame_paths_in_frame_order(dir: Seq<char>, a: u64, b: u64, extension: Seq<char>)
    requires
        a < b < 1_000_000,
    ensures
        text_less(frame_path(dir, a, extension), frame_path(dir, b, extension)),
{
    let pa = zero_padded(a as nat, 6);
    let pb = zero_padded(b as nat, 6);
    lemma_six_places(a as nat);
    lemma_six_places(b as nat);
    law_zero_padded_value(a as nat, 6);
    law_zero_padded_value(b as nat, 6);
    let i = lemma_digits_order(pa, pb);
    let head = dir + "/"@;
    let x = frame_path(dir, a, extension);
    let y = frame_path(dir, b, extension);
    let k = head.len() + i;
    assert(x =~= head + (pa + ("."@ + extension)));
    assert(y =~= head + (pb + ("."@ + extension)));
    assert(x.subrange(0, k) =~= head + pa.subrange(0, i));
    assert(y.subrange(0, k) =~= head + pb.subrange(0, i));
    assert(x[k] == pa[i]);
    assert(y[k] == pb[i]);
    assert(x.subrange(0, k) == y.subrange(0, k));
}

} // verus!
