//! Tile icons: the 32-bit BGRA pixels that Windows hands out for a program's
//! icon become an RGBA image, encoded as PNG and shown as a base64
//! `data:` URL, so the front end needs no file path.

use base64::Engine;
use vstd::prelude::*;

verus! {

broadcast use {vstd::seq_lib::group_seq_properties, vstd::seq::group_seq_axioms};

// ---------------------------------------------------------------------------
// Pixel order.
// ---------------------------------------------------------------------------

/// `bgra` with the blue and red byte of each 4-byte pixel swapped: green and
/// alpha stay where they are.
pub open spec fn rgba_of(bgra: Seq<u8>) -> Seq<u8> {
    Seq::new(
        bgra.len(),
        |i: int|
            if i % 4 == 0 {
                bgra[i + 2]
            } else if i % 4 == 2 {
                bgra[i - 2]
            } else {
                bgra[i]
            },
    )
}

/// Converts BGRA pixels to RGBA.
pub fn bgra_to_rgba(bgra: &[u8]) -> (rgba: Vec<u8>)
    requires
        bgra@.len() % 4 == 0,
    ensures
        rgba@ == rgba_of(bgra@),
{
    let n = bgra.len();
    let mut rgba: Vec<u8> = Vec::with_capacity(n);
    let mut i: usize = 0;
    while i < n
        invariant
            i <= n,
            n == bgra@.len(),
            n % 4 == 0,
            i % 4 == 0,
            rgba@.len() == i,
            forall|k: int| 0 <= k < i ==> #[trigger] rgba@[k] == rgba_of(bgra@)[k],
        decreases n - i,
    {
        rgba.push(bgra[i + 2]);
        rgba.push(bgra[i + 1]);
        rgba.push(bgra[i]);
        rgba.push(bgra[i + 3]);
        assert(forall|k: int| i <= k < i + 4 ==> #[trigger] rgba@[k] == rgba_of(bgra@)[k]);
        i = i + 4;
    }
    assert(rgba@ =~= rgba_of(bgra@));
    rgba
}

// ---------------------------------------------------------------------------
// PNG.
// ---------------------------------------------------------------------------

/// What the `image` crate writes for a `width` x `height` RGBA image with the
/// given pixel bytes, encoded as PNG; `None` where the encoder reports an
/// error.
pub uninterp spec fn png_rgba8(width: u32, height: u32, rgba: Seq<u8>) -> Option<Seq<u8>>;

/// `image::RgbaImage::from_raw` followed by `write_to` with
/// `ImageFormat::Png` into an in-memory buffer. `from_raw` accepts the
/// buffer, since it holds exactly 4 bytes per pixel; the bytes written are
/// named by [`png_rgba8`], as is whether the encoder fails.
#[verifier::external_body]
fn encode_png(width: u32, height: u32, rgba: Vec<u8>) -> (r: Option<Vec<u8>>)
    requires
        rgba@.len() == 4 * width * height,
    ensures
        match r {
            Some(png) => png_rgba8(width, height, rgba@) == Some(png@),
            None => png_rgba8(width, height, rgba@) is None,
        },
{
    let img = image::RgbaImage::from_raw(width, height, rgba)?;
    let mut buf = std::io::Cursor::new(Vec::new());
    img.write_to(&mut buf, image::ImageFormat::Png).ok()?;
    Some(buf.into_inner())
}

// ---------------------------------------------------------------------------
// Base64.
// ---------------------------------------------------------------------------

/// The char of a 6-bit value in the standard base64 alphabet
/// (`A`-`Z`, `a`-`z`, `0`-`9`, `+`, `/`).
pub open spec fn sextet_char(v: int) -> char {
    if v < 26 {
        (v + 65) as char
    } else if v < 52 {
        (v + 71) as char
    } else if v < 62 {
        (v - 4) as char
    } else if v == 62 {
        '+'
    } else {
        '/'
    }
}

/// Standard base64 (RFC 4648, section 4) of `bytes`, with `=` padding: each
/// group of three bytes gives four chars, and a last group of one or two
/// bytes gives two or three chars and the padding.
pub open spec fn base64_standard(bytes: Seq<u8>) -> Seq<char>
    decreases bytes.len(),
{
    let b0 = bytes[0] as int;
    let b1 = bytes[1] as int;
    let b2 = bytes[2] as int;
    if bytes.len() == 0 {
        Seq::empty()
    } else if bytes.len() == 1 {
        seq![sextet_char(b0 / 4), sextet_char((b0 % 4) * 16), '=', '=']
    } else if bytes.len() == 2 {
        seq![
            sextet_char(b0 / 4),
            sextet_char((b0 % 4) * 16 + b1 / 16),
            sextet_char((b1 % 16) * 4),
            '=',
        ]
    } else {
        seq![
            sextet_char(b0 / 4),
            sextet_char((b0 % 4) * 16 + b1 / 16),
            sextet_char((b1 % 16) * 4 + b2 / 64),
            sextet_char(b2 % 64),
        ] + base64_standard(bytes.skip(3))
    }
}

/// `base64::engine::general_purpose::STANDARD.encode`: the standard alphabet
/// with padding, as the crate documents it. The length it computes must fit
/// in `usize` (it panics otherwise).
#[verifier::external_body]
fn base64_encode(bytes: &[u8]) -> (r: String)
    requires
        4 * ((bytes@.len() + 2) / 3) <= usize::MAX,
    ensures
        r@ == base64_standard(bytes@),
{
    base64::engine::general_purpose::STANDARD.encode(bytes)
}

// ---------------------------------------------------------------------------
// Data URL.
// ---------------------------------------------------------------------------

/// The `data:` URL of PNG bytes.
pub open spec fn png_url(png: Seq<u8>) -> Seq<char> {
    "data:image/png;base64,"@ + base64_standard(png)
}

/// The `data:` URL that shows the PNG `png`.
pub fn png_data_url(png: &[u8]) -> (url: String)
    requires
        4 * ((png@.len() + 2) / 3) <= usize::MAX,
    ensures
        url@ == png_url(png@),
{
    let mut url = "data:image/png;base64,".to_owned();
    let b64 = base64_encode(png);
    url.append(b64.as_str());
    url
}

/// Whether the base64 of `n` bytes has a length that fits in `usize`.
pub open spec fn base64_fits(n: nat) -> bool {
    4 * ((n + 2) / 3) <= usize::MAX
}

/// The PNG of a `width` x `height` bitmap of BGRA pixels: `None` for an empty
/// bitmap or when PNG encoding fails, else the encoding of the pixels in RGBA
/// order.
pub fn icon_png(width: u32, height: u32, bgra: &[u8]) -> (r: Option<Vec<u8>>)
    requires
        bgra@.len() == 4 * width * height,
    ensures
        width == 0 || height == 0 ==> r is None,
        width > 0 && height > 0 ==> match png_rgba8(width, height, rgba_of(bgra@)) {
            Some(png) => r is Some && r->0@ == png,
            None => r is None,
        },
{
    if width == 0 || height == 0 {
        return None;
    }
    assert(bgra@.len() % 4 == 0) by {
        let wh = width * height;
        assert(4 * width * height == wh * 4) by (nonlinear_arith)
            requires
                wh == width * height,
        ;
        vstd::arithmetic::div_mod::lemma_mod_multiples_basic(wh, 4);
    }
    let rgba = bgra_to_rgba(bgra);
    encode_png(width, height, rgba)
}

/// The tile icon of a `width` x `height` bitmap of BGRA pixels: the `data:`
/// URL of its PNG (see [`icon_png`]), or `None` where there is no PNG or its
/// base64 would be longer than `usize` can count. A caller shows its default
/// icon on `None`.
pub fn icon_data_url(width: u32, height: u32, bgra: &[u8]) -> (r: Option<String>)
    requires
        bgra@.len() == 4 * width * height,
    ensures
        width == 0 || height == 0 ==> r is None,
        width > 0 && height > 0 ==> match png_rgba8(width, height, rgba_of(bgra@)) {
            Some(png) => if base64_fits(png.len()) {
                r is Some && r->0@ == png_url(png)
            } else {
                r is None
            },
            None => r is None,
        },
{
    let png = match icon_png(width, height, bgra) {
        Some(p) => p,
        None => {
            return None;
        },
    };
    let n = png.len();
    let groups: usize = n / 3 + if n % 3 > 0 {
        1
    } else {
        0
    };
    assert(groups == (n + 2) / 3);
    match groups.checked_mul(4) {
        Some(_) => Some(png_data_url(png.as_slice())),
        None => None,
    }
}

} // verus!
