//! The glyph atlas.
//!
//! A packed bitmap font is decoded once at startup, expanded into RGBA
//! texture data (one indexed color counts as ink, everything else as
//! empty), and paired with a character-to-cell table built from hardcoded
//! row layouts.  The text emitter looks glyph cells up here, falling back
//! to one fixed cell for unmapped characters.

use vstd::prelude::*;
use crate::primitives::Texture;

verus! {

/// The indexed color in the source bitmap that counts as ink; every other
/// value decodes to a fully transparent texel.
pub const INK_INDEX: u8 = 21;

/// `n` is a power of two.
pub open spec fn is_pow2(n: nat) -> bool
    decreases n,
{
    if n == 0 {
        false
    } else if n == 1 {
        true
    } else {
        n % 2 == 0 && is_pow2(n / 2)
    }
}

/// The smallest power of two that is at least `max(x, 1)`.
pub fn ceil_pow2(x: u32) -> (r: u32)
    requires
        x <= 0x8000_0000,
    ensures
        is_pow2(r as nat),
        r >= x,
        r == 1 || r < 2 * x,
{
    let mut r: u32 = 1;
    while r < x
        invariant
            is_pow2(r as nat),
            1 <= r,
            x <= 0x8000_0000,
            r == 1 || r < 2 * x,
        decreases 0x1_0000_0000 - r,
    {
        proof {
            assert(is_pow2((2 * r) as nat)) by {
                assert((2 * r) as nat % 2 == 0 && (2 * r) as nat / 2 == r as nat);
            }
        }
        r = r * 2;
    }
    r
}

/// The value of the texel at `(x, y)` of the expanded texture: ink where
/// the decoded bitmap holds the ink index, transparent elsewhere and
/// outside the bitmap.  All four channels of a texel share this value.
pub open spec fn texel_value(data: Seq<u8>, w: int, h: int, bpp: int, x: int, y: int) -> u8 {
    if 0 <= x < w && 0 <= y < h {
        if data[(x + w * y) * bpp] == INK_INDEX {
            255u8
        } else {
            0u8
        }
    } else {
        0u8
    }
}

/// Expands the decoded bitmap (`w` by `h` pixels of `bpp` bytes each,
/// row-major) into tightly packed RGBA texture data of extent `tex_w` by
/// `tex_h`, classifying each pixel as ink or empty.
pub fn expand_pixels(
    data: &Vec<u8>,
    w: u32,
    h: u32,
    bpp: usize,
    tex_w: u32,
    tex_h: u32,
) -> (r: Vec<u8>)
    requires
        1 <= bpp <= 16,
        w <= 0x1_0000,
        h <= 0x1_0000,
        w <= tex_w <= 0x1_0000,
        h <= tex_h <= 0x1_0000,
        data@.len() == w * h * bpp,
    ensures
        r@.len() == 4 * tex_w * tex_h,
        forall|x: int, y: int, c: int|
            0 <= x < tex_w && 0 <= y < tex_h && 0 <= c < 4 ==> #[trigger] r@[(x + tex_w * y) * 4
                + c] == texel_value(data@, w as int, h as int, bpp as int, x, y),
{
    let mut r: Vec<u8> = Vec::new();
    let mut y: u32 = 0;
    while y < tex_h
        invariant
            1 <= bpp <= 16,
            w <= 0x1_0000,
            h <= 0x1_0000,
            w <= tex_w <= 0x1_0000,
            h <= tex_h <= 0x1_0000,
            data@.len() == w * h * bpp,
            y <= tex_h,
            r@.len() == 4 * tex_w * y,
            forall|xx: int, yy: int, c: int|
                0 <= xx < tex_w && 0 <= yy < y && 0 <= c < 4 ==> #[trigger] r@[(xx + tex_w * yy)
                    * 4 + c] == texel_value(data@, w as int, h as int, bpp as int, xx, yy),
        decreases tex_h - y,
    {
        let mut x: u32 = 0;
        while x < tex_w
            invariant
                1 <= bpp <= 16,
                w <= 0x1_0000,
                h <= 0x1_0000,
                w <= tex_w <= 0x1_0000,
                h <= tex_h <= 0x1_0000,
                data@.len() == w * h * bpp,
                y < tex_h,
                x <= tex_w,
                r@.len() == 4 * (tex_w as int) * (y as int) + 4 * (x as int),
                forall|xx: int, yy: int, c: int|
                    0 <= xx < tex_w && 0 <= yy < y && 0 <= c < 4 ==> #[trigger] r@[(xx + tex_w
                        * yy) * 4 + c] == texel_value(data@, w as int, h as int, bpp as int, xx, yy),
                forall|xx: int, c: int|
                    0 <= xx < x && 0 <= c < 4 ==> #[trigger] r@[(xx + tex_w * y as int) * 4 + c]
                        == texel_value(data@, w as int, h as int, bpp as int, xx, y as int),
            decreases tex_w - x,
        {
            let v: u8 = if x < w && y < h {
                let l: usize = data.len();
                proof {
                    lemma_source_offset_in_range(
                        x as int,
                        y as int,
                        w as int,
                        h as int,
                        bpp as int,
                    );
                    assert(0 <= (w as int) * (y as int)) by (nonlinear_arith)
                        requires
                            0 <= w as int && 0 <= y as int,
                    ;
                    assert(x as int + (w as int) * (y as int) <= (x as int + (w as int) * (
                    y as int)) * (bpp as int)) by (nonlinear_arith)
                        requires
                            0 <= x as int + (w as int) * (y as int),
                            1 <= bpp as int,
                    ;
                }
                let off: usize = (x as usize + w as usize * y as usize) * bpp;
                if data[off] == INK_INDEX {
                    255
                } else {
                    0
                }
            } else {
                0
            };
            let ghost n0 = r@.len() as int;
            r.push(v);
            r.push(v);
            r.push(v);
            r.push(v);
            x = x + 1;
            proof {
                assert forall|xx: int, yy: int, c: int|
                    0 <= xx < tex_w && 0 <= yy < y && 0 <= c < 4 implies #[trigger] r@[(xx + tex_w
                    * yy) * 4 + c] == texel_value(
                    data@,
                    w as int,
                    h as int,
                    bpp as int,
                    xx,
                    yy,
                ) by {
                    lemma_cell_offset_bound(xx, yy, tex_w as int, c);
                    assert(4 * (tex_w as int) * (yy + 1) <= 4 * (tex_w as int) * (y as int))
                        by (nonlinear_arith)
                        requires
                            yy + 1 <= y as int,
                            tex_w as int >= 0,
                    ;
                }
                assert forall|xx: int, c: int|
                    0 <= xx < x && 0 <= c < 4 implies #[trigger] r@[(xx + tex_w * y as int) * 4
                    + c] == texel_value(data@, w as int, h as int, bpp as int, xx, y as int) by {
                    assert((xx + (tex_w as int) * (y as int)) * 4 + c == 4 * (tex_w as int) * (
                    y as int) + 4 * xx + c) by (nonlinear_arith);
                    if xx < x - 1 {
                    } else {
                        assert(xx == x - 1);
                    }
                }
            }
        }
        y = y + 1;
        proof {
            assert(r@.len() == 4 * tex_w * y) by (nonlinear_arith)
                requires
                    r@.len() == 4 * tex_w * (y - 1) + 4 * tex_w,
            ;
        }
    }
    proof {
        assert(r@.len() == 4 * tex_w * tex_h);
    }
    r
}

/// The glyph cells of one atlas row at pixel row `y`: character `i` of
/// the row string sits at pixel origin `(16 + 12 i, y)`.
pub open spec fn row_entries(s: Seq<char>, y: u32) -> Seq<(char, u32, u32)>
    decreases s.len(),
{
    if s.len() == 0 {
        Seq::empty()
    } else {
        row_entries(s.drop_last(), y).push((s.last(), (16 + 12 * (s.len() - 1)) as u32, y))
    }
}

/// The full character-to-cell table, from the hardcoded row layouts:
/// digits and brackets, symbols, then the alphabetic rows of each
/// supported script and case.
pub open spec fn glyph_table_spec() -> Seq<(char, u32, u32)> {
    row_entries("0123456789()[]{}<>@#$"@, 112) + row_entries("+-*÷%=/\\|~^!?….,'\":;_"@, 128)
        + row_entries("АБВГДЕЁЖЗИЙКЛМНОПРСТУФХЦЧШЩЪЫЬЭЮЯ"@, 160) + row_entries(
        "абвгдеёжзийклмнопрстуфхцчшщъыьэюя"@,
        176,
    ) + row_entries("ABCDEFGHIJKLMNOPQRSTUVWXYZ"@, 208) + row_entries(
        "abcdefghijklmnopqrstuvwxyz"@,
        224,
    )
}

/// The first cell recorded for `c` in the table, if any.
pub open spec fn glyph_spec(glyphs: Seq<(char, u32, u32)>, c: char) -> Option<(u32, u32)>
    decreases glyphs.len(),
{
    if glyphs.len() == 0 {
        None
    } else if glyphs[0].0 == c {
        Some((glyphs[0].1, glyphs[0].2))
    } else {
        glyph_spec(glyphs.drop_first(), c)
    }
}

/// Appends one atlas row's entries to the table.
fn add_row(glyphs: &mut Vec<(char, u32, u32)>, y: u32, row: &str)
    requires
        row@.len() <= 64,
    ensures
        final(glyphs)@ == old(glyphs)@ + row_entries(row@, y),
{
    let n = row.unicode_len();
    let mut i: usize = 0;
    while i < n
        invariant
            n == row@.len(),
            n <= 64,
            i <= n,
            glyphs@ == old(glyphs)@ + row_entries(row@.subrange(0, i as int), y),
        decreases n - i,
    {
        let c = row.get_char(i);
        glyphs.push((c, 16 + 12 * (i as u32), y));
        proof {
            let pre = row@.subrange(0, i as int);
            let cur = row@.subrange(0, i as int + 1);
            assert(cur.drop_last() =~= pre);
            assert(cur.last() == row@[i as int]);
            assert(glyphs@ =~= old(glyphs)@ + row_entries(cur, y));
        }
        i = i + 1;
    }
    proof {
        assert(row@.subrange(0, row@.len() as int) =~= row@);
    }
}

/// A decoded bitmap: its extent, its bytes per pixel, and the packed
/// pixel data, row-major.
pub struct DecodedImage {
    pub width: u32,
    pub height: u32,
    pub bytes_per_pixel: usize,
    pub data: Vec<u8>,
}

/// The mathematical shape of a decoded bitmap.
pub ghost struct PngModel {
    pub width: nat,
    pub height: nat,
    pub bytes_per_pixel: nat,
    pub data: Seq<u8>,
}

impl DecodedImage {
    pub open spec fn model(self) -> PngModel {
        PngModel {
            width: self.width as nat,
            height: self.height as nat,
            bytes_per_pixel: self.bytes_per_pixel as nat,
            data: self.data@,
        }
    }
}

/// The image, if any, that the `png` crate decodes from a byte sequence.
/// Decoding is a pure function of the bytes alone; this name stands for
/// its result.
pub uninterp spec fn png_image_of(bytes: Seq<u8>) -> Option<PngModel>;

/// Relies on `png::Decoder::read_info`, `png::Reader::next_frame` and
/// `png::Info::bytes_per_pixel`: the decoded frame is a function of the
/// input bytes alone, written row-major into a buffer of the reader's
/// reported output size.
#[verifier::external_body]
fn decode_png(bytes: &[u8]) -> (r: Option<DecodedImage>)
    ensures
        match r {
            Some(img) => png_image_of(bytes@) == Some(img.model()),
            None => png_image_of(bytes@) is None,
        },
{
    let decoder = png::Decoder::new(std::io::Cursor::new(bytes));
    let mut reader = decoder.read_info().ok()?;
    let size = reader.output_buffer_size()?;
    let mut data = vec![0u8; size];
    let info = reader.next_frame(&mut data).ok()?;
    let bytes_per_pixel = reader.info().bytes_per_pixel();
    Some(DecodedImage { width: info.width, height: info.height, bytes_per_pixel, data })
}

/// The decoded font bitmaps the library accepts: a nonempty image of at
/// most `0x8000` pixels per side whose data length matches its extent.
pub open spec fn shape_ok(m: PngModel) -> bool {
    &&& 1 <= m.width <= 0x8000
    &&& 1 <= m.height <= 0x8000
    &&& 1 <= m.bytes_per_pixel <= 16
    &&& m.data.len() == m.width * m.height * m.bytes_per_pixel
}

/// Why the atlas could not be built from the given bytes.
#[derive(Clone, Copy, Debug, PartialEq, Eq, Structural)]
pub enum FontError {
    /// The bytes are not a decodable image.
    Decode,
    /// The image decoded, but its shape is not one the atlas accepts.
    Unsupported,
}

/// The glyph atlas: the texture holding the expanded bitmap, the fixed
/// cell extent, the character-to-cell table and the fallback cell.
#[derive(Debug)]
pub struct Font {
    pub texture: Texture,
    pub char_size: [u32; 2],
    pub glyphs: Vec<(char, u32, u32)>,
    pub fallback_glyph: [u32; 2],
}

impl Font {
    pub open spec fn wf(self) -> bool {
        &&& self.texture.wf()
        &&& 1 <= self.char_size[0] <= 0x1000
        &&& 1 <= self.char_size[1] <= 0x1000
    }

    /// The atlas cell drawn for `c`: its table entry, or the fallback
    /// cell when `c` is unmapped.
    pub open spec fn cell_of(self, c: char) -> (u32, u32) {
        match glyph_spec(self.glyphs@, c) {
            Some(cell) => cell,
            None => (self.fallback_glyph[0], self.fallback_glyph[1]),
        }
    }

    /// Looks the atlas cell for `c` up, falling back for unmapped
    /// characters.
    pub fn glyph_origin(&self, c: char) -> (r: [u32; 2])
        ensures
            r[0] == self.cell_of(c).0,
            r[1] == self.cell_of(c).1,
    {
        let n = self.glyphs.len();
        let mut i: usize = 0;
        proof {
            assert(self.glyphs@.skip(0) =~= self.glyphs@);
        }
        while i < n
            invariant
                n == self.glyphs@.len(),
                i <= n,
                glyph_spec(self.glyphs@.skip(i as int), c) == glyph_spec(self.glyphs@, c),
            decreases n - i,
        {
            let e = self.glyphs[i];
            proof {
                assert(self.glyphs@.skip(i as int)[0] == self.glyphs@[i as int]);
                assert(self.glyphs@.skip(i as int).drop_first() =~= self.glyphs@.skip(
                    i as int + 1,
                ));
            }
            if e.0 == c {
                return [e.1, e.2];
            }
            i = i + 1;
        }
        proof {
            assert(self.glyphs@.skip(n as int) =~= Seq::<(char, u32, u32)>::empty());
        }
        [self.fallback_glyph[0], self.fallback_glyph[1]]
    }

    /// Builds the atlas from the packed font bitmap: decodes it, expands
    /// it into RGBA data for a texture whose sides are rounded up to
    /// powers of two (width at least 256), and fills the glyph table from
    /// the hardcoded rows.  Returns the atlas and the texture data the
    /// caller uploads under the handle `texture_id`.
    pub fn new(png_bytes: &[u8], texture_id: u64) -> (r: Result<(Font, Vec<u8>), FontError>)
        ensures
            match r {
                Ok(p) => ({
                    let font = p.0;
                    let rgba = p.1;
                    let m = png_image_of(png_bytes@)->Some_0;
                    &&& png_image_of(png_bytes@) is Some
                    &&& shape_ok(m)
                    &&& font.wf()
                    &&& font.texture.id == texture_id
                    &&& is_pow2(font.texture.width as nat)
                    &&& font.texture.width >= 256
                    &&& font.texture.width >= m.width
                    &&& font.texture.width == 256 || font.texture.width < 2 * m.width
                    &&& is_pow2(font.texture.height as nat)
                    &&& font.texture.height >= m.height
                    &&& font.texture.height == 1 || font.texture.height < 2 * m.height
                    &&& font.char_size[0] == 12 && font.char_size[1] == 16
                    &&& font.glyphs@ == glyph_table_spec()
                    &&& font.fallback_glyph[0] == 160 && font.fallback_glyph[1] == 128
                    &&& rgba@.len() == 4 * font.texture.width * font.texture.height
                    &&& forall|x: int, y: int, c: int|
                        0 <= x < font.texture.width && 0 <= y < font.texture.height && 0 <= c < 4
                            ==> #[trigger] rgba@[(x + font.texture.width * y) * 4 + c]
                            == texel_value(
                            m.data,
                            m.width as int,
                            m.height as int,
                            m.bytes_per_pixel as int,
                            x,
                            y,
                        )
                }),
                Err(e) => match e {
                    FontError::Decode => png_image_of(png_bytes@) is None,
                    FontError::Unsupported => png_image_of(png_bytes@) is Some && !shape_ok(
                        png_image_of(png_bytes@)->Some_0,
                    ),
                },
            },
    {
        let img = match decode_png(png_bytes) {
            Some(img) => img,
            None => { return Err(FontError::Decode) },
        };
        if img.width < 1 || img.width > 0x8000 || img.height < 1 || img.height > 0x8000 {
            return Err(FontError::Unsupported);
        }
        if img.bytes_per_pixel < 1 || img.bytes_per_pixel > 16 {
            return Err(FontError::Unsupported);
        }
        proof {
            assert((img.width as int) * (img.height as int) <= 0x4000_0000) by (nonlinear_arith)
                requires
                    0 <= img.width as int <= 0x8000,
                    0 <= img.height as int <= 0x8000,
            ;
            assert((img.width as int) * (img.height as int) * (img.bytes_per_pixel as int)
                <= 0x4000_0000 * 16) by (nonlinear_arith)
                requires
                    0 <= (img.width as int) * (img.height as int) <= 0x4000_0000,
                    0 <= img.bytes_per_pixel as int <= 16,
            ;
        }
        let expected: u64 = img.width as u64 * img.height as u64 * img.bytes_per_pixel as u64;
        if img.data.len() as u64 != expected {
            proof {
                assert(img.data@.len() != img.model().width * img.model().height
                    * img.model().bytes_per_pixel);
            }
            return Err(FontError::Unsupported);
        }
        let p = ceil_pow2(img.width);
        let tex_w: u32 = if p < 256 {
            proof {
                lemma_pow2_256();
            }
            256
        } else {
            p
        };
        let tex_h = ceil_pow2(img.height);
        let rgba = expand_pixels(
            &img.data,
            img.width,
            img.height,
            img.bytes_per_pixel,
            tex_w,
            tex_h,
        );
        let mut glyphs: Vec<(char, u32, u32)> = Vec::new();
        proof {
            reveal_strlit("0123456789()[]{}<>@#$");
            reveal_strlit("+-*÷%=/\\|~^!?….,'\":;_");
            reveal_strlit("АБВГДЕЁЖЗИЙКЛМНОПРСТУФХЦЧШЩЪЫЬЭЮЯ");
            reveal_strlit("абвгдеёжзийклмнопрстуфхцчшщъыьэюя");
            reveal_strlit("ABCDEFGHIJKLMNOPQRSTUVWXYZ");
            reveal_strlit("abcdefghijklmnopqrstuvwxyz");
        }
        add_row(&mut glyphs, 112, "0123456789()[]{}<>@#$");
        add_row(&mut glyphs, 128, "+-*÷%=/\\|~^!?….,'\":;_");
        add_row(&mut glyphs, 160, "АБВГДЕЁЖЗИЙКЛМНОПРСТУФХЦЧШЩЪЫЬЭЮЯ");
        add_row(&mut glyphs, 176, "абвгдеёжзийклмнопрстуфхцчшщъыьэюя");
        add_row(&mut glyphs, 208, "ABCDEFGHIJKLMNOPQRSTUVWXYZ");
        add_row(&mut glyphs, 224, "abcdefghijklmnopqrstuvwxyz");
        proof {
            assert(glyphs@ =~= glyph_table_spec());
        }
        let font = Font {
            texture: Texture { id: texture_id, width: tex_w, height: tex_h },
            char_size: [12, 16],
            glyphs,
            fallback_glyph: [160, 128],
        };
        Ok((font, rgba))
    }
}

/// 256 is a power of two.
proof fn lemma_pow2_256()
    ensures
        is_pow2(256),
{
    assert(is_pow2(1));
    assert(is_pow2(2));
    assert(is_pow2(4));
    assert(is_pow2(8));
    assert(is_pow2(16));
    assert(is_pow2(32));
    assert(is_pow2(64));
    assert(is_pow2(128));
    assert(is_pow2(256));
}

/// A texel's byte offset lies within its row of the expanded texture.
proof fn lemma_cell_offset_bound(xx: int, yy: int, tw: int, c: int)
    requires
        0 <= xx < tw,
        0 <= yy,
        0 <= c < 4,
    ensures
        4 * tw * yy <= (xx + tw * yy) * 4 + c < 4 * tw * (yy + 1),
{
    assert(4 * tw * yy <= (xx + tw * yy) * 4 + c < 4 * tw * (yy + 1)) by (nonlinear_arith)
        requires
            0 <= xx < tw,
            0 <= yy,
            0 <= c < 4,
    ;
}

/// The source-bitmap offset read for pixel `(x, y)` lies inside the
/// decoded data.
proof fn lemma_source_offset_in_range(x: int, y: int, w: int, h: int, bpp: int)
    requires
        0 <= x < w,
        0 <= y < h,
        1 <= bpp,
    ensures
        0 <= (x + w * y) * bpp < w * h * bpp,
{
    assert(0 <= (x + w * y) * bpp < w * h * bpp) by (nonlinear_arith)
        requires
            0 <= x < w,
            0 <= y < h,
            1 <= bpp,
    ;
}

} // verus!
