//! Raw RGBA frames and their browser form: a frame is encoded as an image
//! file, the file as standard base64, and the text is framed as a `data:`
//! URL that a browser can show.

use vstd::prelude::*;

use base64::Engine;

verus! {

/// Declares `image::ImageError` so that the encoder's failure can be carried.
#[verifier::external_type_specification]
#[verifier::external_body]
pub struct ExImageError(image::ImageError);

/// The image file formats that frames are encoded to.
#[derive(Clone, Copy, PartialEq, Eq, Structural, Debug)]
pub enum ImageEncoding {
    /// PNG.
    Png,
    /// Lossless WebP.
    WebP,
}

impl ImageEncoding {
    /// The media type of the format.
    pub open spec fn media_type_text(self) -> Seq<char> {
        match self {
            ImageEncoding::Png => "image/png"@,
            ImageEncoding::WebP => "image/webp"@,
        }
    }

    /// The media type of the format: `image/png` or `image/webp`.
    pub fn media_type(&self) -> (t: &'static str)
        ensures
            t@ == self.media_type_text(),
    {
        match self {
            ImageEncoding::Png => "image/png",
            ImageEncoding::WebP => "image/webp",
        }
    }
}

/// Each format has its own image media type: `image/png` for PNG and
/// `image/webp` for WebP.
pub proof fn law_media_types(f: ImageEncoding)
    ensures
        f == ImageEncoding::Png ==> f.media_type_text() == seq!['i', 'm', 'a', 'g', 'e', '/', 'p', 'n', 'g'],
        f == ImageEncoding::WebP ==> f.media_type_text() == seq!['i', 'm', 'a', 'g', 'e', '/', 'w', 'e', 'b', 'p'],
{
    reveal_strlit("image/png");
    reveal_strlit("image/webp");
    assert("image/png"@ =~= seq!['i', 'm', 'a', 'g', 'e', '/', 'p', 'n', 'g']);
    assert("image/webp"@ =~= seq!['i', 'm', 'a', 'g', 'e', '/', 'w', 'e', 'b', 'p']);
}

/// The file that `image::write_buffer_with_format` writes for RGBA8 pixels
/// of the given size in the given format, or `None` where it fails.
pub uninterp spec fn rgba_encoding(
    pixels: Seq<u8>,
    width: u32,
    height: u32,
    format: ImageEncoding,
) -> Option<Seq<u8>>;

/// The character of the standard base64 alphabet for the six-bit value `v`:
/// `A`-`Z`, `a`-`z`, `0`-`9`, `+`, `/`.
pub open spec fn base64_char(v: int) -> char {
    if v < 26 {
        (65 + v) as char
    } else if v < 52 {
        (97 + v - 26) as char
    } else if v < 62 {
        (48 + v - 52) as char
    } else if v == 62 {
        '+'
    } else {
        '/'
    }
}

/// The standard base64 text (RFC 4648 alphabet, `=` padding) of `data`:
/// every three bytes, read as a 24-bit number, become four characters of
/// six bits each; a last group of one or two bytes is padded with zero
/// bits and completed with `==` or `=`.
pub open spec fn base64_standard(data: Seq<u8>) -> Seq<char>
    decreases data.len(),
{
    if data.len() == 0 {
        Seq::empty()
    } else if data.len() == 1 {
        let n = (data[0] as int) * 65536;
        seq![base64_char(n / 262144), base64_char((n / 4096) % 64), '=', '=']
    } else if data.len() == 2 {
        let n = (data[0] as int) * 65536 + (data[1] as int) * 256;
        seq![base64_char(n / 262144), base64_char((n / 4096) % 64), base64_char((n / 64) % 64), '=']
    } else {
        let n = (data[0] as int) * 65536 + (data[1] as int) * 256 + (data[2] as int);
        seq![
            base64_char(n / 262144),
            base64_char((n / 4096) % 64),
            base64_char((n / 64) % 64),
            base64_char(n % 64),
        ] + base64_standard(data.skip(3))
    }
}

/// The six-bit value of a character of the standard base64 alphabet.
pub open spec fn base64_value(c: char) -> int {
    let v = c as int;
    if 65 <= v <= 90 {
        v - 65
    } else if 97 <= v <= 122 {
        v - 71
    } else if 48 <= v <= 57 {
        v + 4
    } else if c == '+' {
        62
    } else {
        63
    }
}

/// Reads standard padded base64 back into bytes, four characters at a time,
/// as a base64 decoder does.
pub open spec fn base64_decode(t: Seq<char>) -> Seq<u8>
    decreases t.len(),
{
    if t.len() < 4 {
        Seq::empty()
    } else {
        let n = base64_value(t[0]) * 262144 + base64_value(t[1]) * 4096 + (if t[2] == '=' {
            0
        } else {
            base64_value(t[2]) * 64
        }) + (if t[3] == '=' {
            0
        } else {
            base64_value(t[3])
        });
        let b0 = (n / 65536) as u8;
        let b1 = ((n / 256) % 256) as u8;
        let b2 = (n % 256) as u8;
        if t[2] == '=' {
            seq![b0]
        } else if t[3] == '=' {
            seq![b0, b1]
        } else {
            seq![b0, b1, b2] + base64_decode(t.skip(4))
        }
    }
}

/// Whether `c` is a character of the standard base64 alphabet or the pad.
pub open spec fn is_base64_text_char(c: char) -> bool {
    let v = c as int;
    (65 <= v <= 90) || (97 <= v <= 122) || (48 <= v <= 57) || c == '+' || c == '/' || c == '='
}

proof fn lemma_base64_char(v: int)
    requires
        0 <= v < 64,
    ensures
        base64_value(base64_char(v)) == v,
        base64_char(v) != '=',
        is_base64_text_char(base64_char(v)),
{
    if v < 26 {
        assert((65 + v) as char as int == 65 + v);
    } else if v < 52 {
        assert((97 + v - 26) as char as int == 97 + v - 26);
    } else if v < 62 {
        assert((48 + v - 52) as char as int == 48 + v - 52);
    }
}

proof fn lemma_base64_group(d0: int, d1: int, d2: int)
    requires
        0 <= d0 < 256,
        0 <= d1 < 256,
        0 <= d2 < 256,
    ensures
        ({
            let n = d0 * 65536 + d1 * 256 + d2;
            &&& 0 <= n / 262144 < 64
            &&& (n / 262144) * 262144 + ((n / 4096) % 64) * 4096 + ((n / 64) % 64) * 64 + n % 64 == n
            &&& n / 65536 == d0
            &&& (n / 256) % 256 == d1
            &&& n % 256 == d2
        }),
{
    let n = d0 * 65536 + d1 * 256 + d2;
    assert(0 <= n < 16777216) by (nonlinear_arith)
        requires
            n == d0 * 65536 + d1 * 256 + d2,
            0 <= d0 < 256,
            0 <= d1 < 256,
            0 <= d2 < 256,
    ;
    assert((n / 262144) * 262144 + ((n / 4096) % 64) * 4096 + ((n / 64) % 64) * 64 + n % 64 == n)
        by (nonlinear_arith)
        requires
            0 <= n,
    ;
    assert(0 <= n / 262144 < 64) by (nonlinear_arith)
        requires
            0 <= n < 16777216,
    ;
    assert(n / 65536 == d0 && (n / 256) % 256 == d1 && n % 256 == d2) by (nonlinear_arith)
        requires
            n == d0 * 65536 + d1 * 256 + d2,
            0 <= d0 < 256,
            0 <= d1 < 256,
            0 <= d2 < 256,
    ;
}

/// Standard base64 loses nothing and writes only its alphabet: every
/// character is a letter, a digit, `+`, `/` or the `=` pad, the text is
/// four characters for every started group of three bytes, and decoding it
/// gives back exactly the bytes.
pub proof fn law_base64_round_trip(data: Seq<u8>)
    ensures
        base64_decode(base64_standard(data)) == data,
        base64_standard(data).len() == 4 * ((data.len() + 2) / 3),
        forall|i: int|
            0 <= i < base64_standard(data).len() ==> is_base64_text_char(
                #[trigger] base64_standard(data)[i],
            ),
    decreases data.len(),
{
    let s = base64_standard(data);
    if data.len() == 0 {
    } else {
        let d0 = data[0] as int;
        let d1 = if data.len() > 1 { data[1] as int } else { 0 };
        let d2 = if data.len() > 2 { data[2] as int } else { 0 };
        lemma_base64_group(d0, d1, d2);
        let n = d0 * 65536 + d1 * 256 + d2;
        lemma_base64_char(n / 262144);
        lemma_base64_char((n / 4096) % 64);
        lemma_base64_char((n / 64) % 64);
        lemma_base64_char(n % 64);
        if data.len() == 1 {
            assert(n == d0 * 65536);
            assert(((n / 4096) % 64) == (d0 % 4) * 16) by (nonlinear_arith)
                requires
                    n == d0 * 65536,
                    0 <= d0 < 256,
            ;
            assert(data =~= seq![data[0]]);
        } else if data.len() == 2 {
            assert(((n / 64) % 64) == (d1 % 16) * 4) by (nonlinear_arith)
                requires
                    n == d0 * 65536 + d1 * 256,
                    0 <= d0 < 256,
                    0 <= d1 < 256,
            ;
            assert(data =~= seq![data[0], data[1]]);
        } else {
            let rest = data.skip(3);
            law_base64_round_trip(rest);
            let g = seq![
                base64_char(n / 262144),
                base64_char((n / 4096) % 64),
                base64_char((n / 64) % 64),
                base64_char(n % 64),
            ];
            assert(s == g + base64_standard(rest));
            assert(s.skip(4) =~= base64_standard(rest));
            assert(data =~= seq![data[0], data[1], data[2]] + rest);
            assert forall|i: int| 0 <= i < s.len() implies is_base64_text_char(#[trigger] s[i]) by {
                if i >= 4 {
                    assert(s[i] == base64_standard(rest)[i - 4]);
                }
            }
            assert((data.len() + 2) / 3 == (rest.len() + 2) / 3 + 1);
        }
    }
}

/// The lower-case hexadecimal digit of `v < 16`.
pub open spec fn hex_digit(v: int) -> char {
    if v < 10 {
        (48 + v) as char
    } else {
        (97 + v - 10) as char
    }
}

/// How a character stands inside a JSON string: `"` and `\` behind a
/// backslash, the controls backspace, tab, line feed, form feed and
/// carriage return as `\b \t \n \f \r`, the other characters below
/// U+0020 as `\u00` and two lower-case hex digits, every other character as
/// itself.
pub open spec fn json_char(c: char) -> Seq<char> {
    let v = c as int;
    if c == '"' {
        seq!['\\', '"']
    } else if c == '\\' {
        seq!['\\', '\\']
    } else if v == 8 {
        seq!['\\', 'b']
    } else if v == 9 {
        seq!['\\', 't']
    } else if v == 10 {
        seq!['\\', 'n']
    } else if v == 12 {
        seq!['\\', 'f']
    } else if v == 13 {
        seq!['\\', 'r']
    } else if v < 32 {
        seq!['\\', 'u', '0', '0', hex_digit(v / 16), hex_digit(v % 16)]
    } else {
        seq![c]
    }
}

/// The escaped characters of a JSON string.
pub open spec fn json_escaped(s: Seq<char>) -> Seq<char>
    decreases s.len(),
{
    if s.len() == 0 {
        Seq::empty()
    } else {
        json_escaped(s.drop_last()) + json_char(s.last())
    }
}

/// The JSON string literal for `s`: quoted and escaped.
pub open spec fn json_string_literal(s: Seq<char>) -> Seq<char> {
    seq!['"'] + json_escaped(s) + seq!['"']
}

/// Encodes RGBA8 pixels as an image file.
///
/// Trusted: calls `image::write_buffer_with_format` with
/// `ColorType::Rgba8` and `ImageOutputFormat::Png` or `::WebP` (lossless),
/// writing into memory. The encoders assert that the buffer holds exactly
/// `width * height * 4` bytes, hence the `requires`. The contract claims
/// that the outcome depends on the arguments alone (the result is named),
/// and that a `Vec` never holds more than `isize::MAX` bytes (std).
#[verifier::external_body]
pub fn write_rgba_image(pixels: &[u8], width: u32, height: u32, format: ImageEncoding) -> (r:
    Result<Vec<u8>, image::ImageError>)
    requires
        pixels@.len() == (width as int) * (height as int) * 4,
    ensures
        r matches Ok(b) ==> rgba_encoding(pixels@, width, height, format) == Some(b@) && b@.len()
            <= isize::MAX,
        r is Err ==> rgba_encoding(pixels@, width, height, format) is None,
{
    let mut out: Vec<u8> = Vec::new();
    let fmt = match format {
        ImageEncoding::Png => image::ImageOutputFormat::Png,
        ImageEncoding::WebP => image::ImageOutputFormat::WebP,
    };
    let mut cursor = std::io::Cursor::new(&mut out);
    match image::write_buffer_with_format(&mut cursor, pixels, width, height, image::ColorType::Rgba8, fmt) {
        Ok(()) => Ok(out),
        Err(e) => Err(e),
    }
}

/// Standard base64 with padding.
///
/// Trusted: calls `base64::engine::general_purpose::STANDARD.encode` (the
/// RFC 4648 standard alphabet with padding), which panics when the encoded
/// length, `4 * ceil(len / 3)`, overflows `usize` (hence the `requires`).
/// The contract claims that the text is `base64_standard` of the bytes.
#[verifier::external_body]
pub fn base64_encode(data: &[u8]) -> (s: String)
    requires
        4 * ((data@.len() + 2) / 3) <= usize::MAX,
    ensures
        s@ == base64_standard(data@),
{
    base64::engine::general_purpose::STANDARD.encode(data)
}

/// The value of a hexadecimal digit (`0`-`9`, `a`-`f`, `A`-`F`).
pub open spec fn hex_value(c: char) -> int {
    let v = c as int;
    if 48 <= v <= 57 {
        v - 48
    } else if 97 <= v <= 102 {
        v - 87
    } else {
        v - 55
    }
}

/// The character that a two-character JSON escape `\\e` stands for.
pub open spec fn unescape_letter(e: char) -> char {
    if e == 'b' {
        8 as char
    } else if e == 't' {
        9 as char
    } else if e == 'n' {
        10 as char
    } else if e == 'f' {
        12 as char
    } else if e == 'r' {
        13 as char
    } else {
        e
    }
}

/// Reads the escaped contents of a JSON string back into its characters,
/// as a JSON parser does: `\\uXXXX` gives the character with that hex code,
/// `\\e` the character the escape letter stands for, any other character
/// itself.
pub open spec fn json_unescape(t: Seq<char>) -> Seq<char>
    decreases t.len(),
{
    if t.len() == 0 {
        Seq::empty()
    } else if t[0] == '\\' && t.len() >= 6 && t[1] == 'u' {
        seq![(hex_value(t[2]) * 4096 + hex_value(t[3]) * 256 + hex_value(t[4]) * 16 + hex_value(t[5])) as char]
            + json_unescape(t.skip(6))
    } else if t[0] == '\\' && t.len() >= 2 {
        seq![unescape_letter(t[1])] + json_unescape(t.skip(2))
    } else {
        seq![t[0]] + json_unescape(t.skip(1))
    }
}

proof fn lemma_json_escaped_front(s: Seq<char>)
    requires
        s.len() > 0,
    ensures
        json_escaped(s) == json_char(s[0]) + json_escaped(s.drop_first()),
    decreases s.len(),
{
    if s.len() == 1 {
        assert(s.drop_last() =~= Seq::<char>::empty());
        assert(s.drop_first() =~= Seq::<char>::empty());
        assert(json_escaped(s.drop_last()) =~= Seq::<char>::empty());
        assert(json_escaped(s.drop_first()) =~= Seq::<char>::empty());
        assert(json_escaped(s) =~= json_char(s[0]));
    } else {
        lemma_json_escaped_front(s.drop_last());
        assert(s.drop_last().drop_first() =~= s.drop_first().drop_last());
        assert(s.drop_first().last() == s.last());
        assert(json_escaped(s) =~= json_char(s[0]) + json_escaped(s.drop_first()));
    }
}

proof fn lemma_hex_digit_value(v: int)
    requires
        0 <= v < 16,
    ensures
        hex_value(hex_digit(v)) == v,
{
    if v < 10 {
        assert((48 + v) as char as int == 48 + v);
    } else {
        assert((97 + v - 10) as char as int == 97 + v - 10);
    }
}

proof fn lemma_json_char_unescape(c: char, x: Seq<char>)
    ensures
        json_unescape(json_char(c) + x) == seq![c] + json_unescape(x),
{
    let t = json_char(c) + x;
    let v = c as int;
    if c == '"' || c == '\\' {
        assert(t.skip(2) =~= x);
    } else if v == 8 || v == 9 || v == 10 || v == 12 || v == 13 {
        assert(t.skip(2) =~= x);
        assert(unescape_letter(t[1]) as int == v);
    } else if v < 32 {
        assert(t.skip(6) =~= x);
        lemma_hex_digit_value(v / 16);
        lemma_hex_digit_value(v % 16);
        assert((48int) as char as int == 48);
        assert(hex_value(t[2]) == 0);
        assert(hex_value(t[3]) == 0);
        assert(hex_value(t[4]) * 16 + hex_value(t[5]) == v);
        assert(((hex_value(t[2]) * 4096 + hex_value(t[3]) * 256 + hex_value(t[4]) * 16 + hex_value(
            t[5],
        )) as char) as int == v);
    } else {
        assert(t.skip(1) =~= x);
    }
}

/// JSON string escaping loses nothing: reading the escaped contents back
/// gives exactly the original text, for every text.
pub proof fn law_json_escape_round_trip(s: Seq<char>)
    ensures
        json_unescape(json_escaped(s)) == s,
    decreases s.len(),
{
    if s.len() == 0 {
        assert(json_escaped(s) =~= Seq::<char>::empty());
    } else {
        lemma_json_escaped_front(s);
        lemma_json_char_unescape(s[0], json_escaped(s.drop_first()));
        law_json_escape_round_trip(s.drop_first());
        assert(seq![s[0]] + s.drop_first() =~= s);
    }
}

/// Declares `serde_json::Error`, the error type of `serde_json::to_string`.
#[verifier::external_type_specification]
#[verifier::external_body]
pub struct ExJsonError(serde_json::Error);

/// The JSON string literal of `s`.
///
/// Trusted: calls `serde_json::to_string` on a `str`. Its source writes the
/// escaped string into a `Vec<u8>`, which cannot fail, so the result is
/// always `Ok`; it escapes by the table that `json_char` states (only
/// `"`, `\\` and the characters below U+0020 are escaped).
#[verifier::external_body]
pub fn json_quote(s: &str) -> (r: Result<String, serde_json::Error>)
    ensures
        r is Ok,
        r matches Ok(t) ==> t@ == json_string_literal(s@),
{
    serde_json::to_string(s)
}

/// A raw RGBA8 frame: `width * height` pixels of four bytes each, row by
/// row, at the start of its buffer (which may be longer).
pub struct RgbaFrame {
    width: u32,
    height: u32,
    data: Vec<u8>,
}

/// The number of bytes that a `width` by `height` RGBA8 frame takes.
pub open spec fn rgba_len(width: u32, height: u32) -> int {
    4 * (width as int) * (height as int)
}

impl RgbaFrame {
    #[verifier::type_invariant]
    spec fn fits(self) -> bool {
        &&& 4 * (self.width as int) <= usize::MAX
        &&& rgba_len(self.width, self.height) <= self.data@.len()
    }

    /// The width in pixels.
    pub closed spec fn spec_width(self) -> u32 {
        self.width
    }

    /// The height in pixels.
    pub closed spec fn spec_height(self) -> u32 {
        self.height
    }

    /// The whole buffer.
    pub closed spec fn buffer(self) -> Seq<u8> {
        self.data@
    }

    /// The pixel bytes: the first `4 * width * height` bytes of the buffer.
    pub open spec fn pixels(self) -> Seq<u8> {
        self.buffer().subrange(0, rgba_len(self.spec_width(), self.spec_height()))
    }

    /// A new frame of the given size, every byte zero (transparent black).
    /// Its size must fit in memory (`ImageBuffer::new` panics otherwise).
    pub fn new(width: u32, height: u32) -> (f: RgbaFrame)
        requires
            4 * (width as int) <= usize::MAX,
            rgba_len(width, height) <= usize::MAX,
        ensures
            f.spec_width() == width,
            f.spec_height() == height,
            f.buffer().len() == rgba_len(width, height),
            forall|i: int| 0 <= i < f.buffer().len() ==> f.buffer()[i] == 0,
    {
        let w4: usize = 4 * (width as usize);
        assert(rgba_len(width, height) == (w4 as int) * (height as int)) by (nonlinear_arith)
            requires
                w4 == 4 * (width as int),
        ;
        let n: usize = w4 * (height as usize);
        let mut data: Vec<u8> = Vec::new();
        let mut i: usize = 0;
        while i < n
            invariant
                i <= n,
                data@.len() == i,
                forall|j: int| 0 <= j < i ==> data@[j] == 0,
            decreases n - i,
        {
            data.push(0u8);
            i = i + 1;
        }
        RgbaFrame { width, height, data }
    }

    /// A frame over `data` when it holds at least `4 * width * height`
    /// bytes, as `ImageBuffer::from_raw` decides (its size computation,
    /// `4 * width` and then times `height`, must not overflow `usize`);
    /// `None` otherwise.
    pub fn from_raw(width: u32, height: u32, data: Vec<u8>) -> (f: Option<RgbaFrame>)
        ensures
            f is Some <==> (4 * (width as int) <= usize::MAX && rgba_len(width, height)
                <= data@.len()),
            f matches Some(fr) ==> fr.spec_width() == width && fr.spec_height() == height
                && fr.buffer() == data@,
    {
        let len = data.len();
        match (4usize).checked_mul(width as usize) {
            None => None,
            Some(w4) => {
                assert(rgba_len(width, height) == (w4 as int) * (height as int)) by (nonlinear_arith)
                    requires
                        w4 == 4 * (width as int),
                ;
                match w4.checked_mul(height as usize) {
                    None => {
                        assert(rgba_len(width, height) > usize::MAX);
                        None
                    },
                    Some(n) => {
                        assert(n == rgba_len(width, height));
                        if n <= len {
                            Some(RgbaFrame { width, height, data })
                        } else {
                            None
                        }
                    },
                }
            },
        }
    }

    /// The width and height in pixels.
    pub fn dimensions(&self) -> (d: (u32, u32))
        ensures
            d == (self.spec_width(), self.spec_height()),
    {
        (self.width, self.height)
    }

    /// The pixel bytes, without whatever follows them in the buffer.
    pub fn pixel_bytes(&self) -> (p: &[u8])
        ensures
            p@ == self.pixels(),
    {
        proof {
            use_type_invariant(self);
        }
        let len = self.data.len();
        let w4: usize = 4 * (self.width as usize);
        assert(rgba_len(self.width, self.height) == (w4 as int) * (self.height as int))
            by (nonlinear_arith)
            requires
                w4 == 4 * (self.width as int),
        ;
        let n: usize = w4 * (self.height as usize);
        &self.data.as_slice()[0..n]
    }
}

/// The `data:` URL that carries a base64 payload of the given media type.
pub open spec fn data_url_text(media_type: Seq<char>, payload: Seq<char>) -> Seq<char> {
    "data:"@ + media_type + ";base64,"@ + payload
}

/// A `data:` URL is `data:`, the media type, `;base64,` and then the
/// payload itself, unchanged, up to its end.
pub proof fn law_data_url_carries_payload(media_type: Seq<char>, payload: Seq<char>)
    ensures
        ({
            let u = data_url_text(media_type, payload);
            let k: int = 13 + media_type.len() as int;
            &&& u.len() == k + payload.len()
            &&& u.subrange(0, 5) == seq!['d', 'a', 't', 'a', ':']
            &&& u.subrange(5, 5 + media_type.len() as int) == media_type
            &&& u.subrange(5 + media_type.len() as int, k) == seq![';', 'b', 'a', 's', 'e', '6', '4', ',']
            &&& u.subrange(k, u.len() as int) == payload
        }),
{
    reveal_strlit("data:");
    reveal_strlit(";base64,");
    let u = data_url_text(media_type, payload);
    let k: int = 13 + media_type.len() as int;
    assert(u =~= seq!['d', 'a', 't', 'a', ':'] + media_type + seq![';', 'b', 'a', 's', 'e', '6', '4', ','] + payload);
    assert(u.subrange(0, 5) =~= seq!['d', 'a', 't', 'a', ':']);
    assert(u.subrange(5, 5 + media_type.len() as int) =~= media_type);
    assert(u.subrange(5 + media_type.len() as int, k) =~= seq![';', 'b', 'a', 's', 'e', '6', '4', ',']);
    assert(u.subrange(k, u.len() as int) =~= payload);
}

/// `data:{media_type};base64,{payload}`.
pub fn data_url(media_type: &str, payload: &str) -> (u: String)
    ensures
        u@ == data_url_text(media_type@, payload@),
{
    let mut u = "data:".to_owned();
    u.append(media_type);
    u.append(";base64,");
    u.append(payload);
    u
}

/// The `data:` URL of an encoded image file: its media type and the
/// standard base64 of its bytes.
pub fn encoded_image_data_url(format: ImageEncoding, file: &[u8]) -> (u: String)
    requires
        file@.len() <= isize::MAX,
    ensures
        u@ == data_url_text(format.media_type_text(), base64_standard(file@)),
{
    assert(4 * ((file@.len() + 2) / 3) <= usize::MAX);
    let payload = base64_encode(file);
    data_url(format.media_type(), payload.as_str())
}

/// The browser form of a frame: the frame encoded in `format`, as a
/// `data:` URL, or an error where the encoder fails.
pub open spec fn frame_data_url_spec(frame: RgbaFrame, format: ImageEncoding) -> Option<Seq<char>> {
    match rgba_encoding(frame.pixels(), frame.spec_width(), frame.spec_height(), format) {
        Some(file) => Some(data_url_text(format.media_type_text(), base64_standard(file))),
        None => None,
    }
}

/// Encodes a frame in `format` and frames it as a `data:` URL.
/// Where the encoder fails, its error is handed back.
pub fn frame_data_url(frame: &RgbaFrame, format: ImageEncoding) -> (r: Result<String, image::ImageError>)
    ensures
        match frame_data_url_spec(*frame, format) {
            Some(u) => r matches Ok(s) && s@ == u,
            None => r is Err,
        },
{
    let pixels = frame.pixel_bytes();
    let (w, h) = frame.dimensions();
    proof {
        use_type_invariant(frame);
        assert(rgba_len(w, h) == (w as int) * (h as int) * 4) by (nonlinear_arith);
    }
    match write_rgba_image(pixels, w, h, format) {
        Ok(file) => Ok(encoded_image_data_url(format, file.as_slice())),
        Err(e) => Err(e),
    }
}

} // verus!
