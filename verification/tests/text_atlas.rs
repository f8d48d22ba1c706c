use prim2d::font::{ceil_pow2, Font, FontError};
use prim2d::geom::Scalar;
use prim2d::primitives::{PrimitiveList, Texture, Vec2};

fn val(s: Scalar) -> f64 {
    s.num as f64 / s.den as f64
}

fn approx(a: f64, b: f64) -> bool {
    (a - b).abs() < 1e-6
}

/// Encodes a grayscale 8-bit bitmap of the given extent.
fn encode_png(width: u32, height: u32, data: &[u8]) -> Vec<u8> {
    let mut out = Vec::new();
    {
        let mut enc = png::Encoder::new(&mut out, width, height);
        enc.set_color(png::ColorType::Grayscale);
        enc.set_depth(png::BitDepth::Eight);
        let mut writer = enc.write_header().unwrap();
        writer.write_image_data(data).unwrap();
    }
    out
}

fn small_font() -> (Font, Vec<u8>) {
    // A 4x2 bitmap with ink at (1, 0) and (3, 1).
    let mut data = vec![0u8; 8];
    data[1] = 21;
    data[4 + 3] = 21;
    let bytes = encode_png(4, 2, &data);
    Font::new(&bytes, 7).unwrap()
}

#[test]
fn ceil_pow2_values() {
    assert_eq!(ceil_pow2(0), 1);
    assert_eq!(ceil_pow2(1), 1);
    assert_eq!(ceil_pow2(2), 2);
    assert_eq!(ceil_pow2(3), 4);
    assert_eq!(ceil_pow2(255), 256);
    assert_eq!(ceil_pow2(256), 256);
    assert_eq!(ceil_pow2(257), 512);
    assert_eq!(ceil_pow2(0x8000_0000), 0x8000_0000);
}

#[test]
fn font_builds_texture_and_table() {
    let (font, rgba) = small_font();
    assert_eq!(font.texture.id, 7);
    // Width is rounded up to a power of two and floored at 256.
    assert_eq!(font.texture.width, 256);
    assert_eq!(font.texture.height, 2);
    assert_eq!(font.char_size, [12, 16]);
    assert_eq!(rgba.len(), 4 * 256 * 2);
    // Glyph cells from the hardcoded rows.
    assert_eq!(font.glyph_origin('0'), [16, 112]);
    assert_eq!(font.glyph_origin('A'), [16, 208]);
    assert_eq!(font.glyph_origin('B'), [28, 208]);
    assert_eq!(font.glyph_origin('z'), [16 + 12 * 25, 224]);
    assert_eq!(font.glyph_origin('я'), [16 + 12 * 32, 176]);
    assert_eq!(font.glyph_origin('?'), [160, 128]);
    // Unmapped characters fall back to the question-mark cell.
    assert_eq!(font.glyph_origin('€'), [160, 128]);
    assert_eq!(font.glyph_origin(' '), [160, 128]);
}

#[test]
fn font_expands_ink_pixels() {
    let (font, rgba) = small_font();
    let tw = font.texture.width as usize;
    let texel = |x: usize, y: usize| -> [u8; 4] {
        let off = (x + tw * y) * 4;
        [rgba[off], rgba[off + 1], rgba[off + 2], rgba[off + 3]]
    };
    assert_eq!(texel(1, 0), [255; 4]);
    assert_eq!(texel(3, 1), [255; 4]);
    assert_eq!(texel(0, 0), [0; 4]);
    assert_eq!(texel(2, 1), [0; 4]);
    // Padding beyond the bitmap stays transparent.
    assert_eq!(texel(100, 1), [0; 4]);
}

#[test]
fn font_rejects_undecodable_bytes() {
    assert!(matches!(Font::new(b"not a png at all", 0), Err(FontError::Decode)));
}

#[test]
fn font_rejects_oversized_bitmap() {
    let data = vec![0u8; 33000];
    let bytes = encode_png(33000, 1, &data);
    assert!(matches!(Font::new(&bytes, 0), Err(FontError::Unsupported)));
}

#[test]
fn draw_text_two_quads() {
    let (font, _) = small_font();
    let mut list = PrimitiveList::new();
    list.set_window_size([800, 600]);
    list.text_i(&font, [5, 7], "AB");

    // Two textured quads: four vertices and six indices each.
    assert_eq!(list.vtx.len(), 8);
    assert_eq!(list.idx.len(), 12);
    assert_eq!(list.commands.len(), 1);
    assert_eq!(list.commands[0].texture, Some(font.texture));
    assert_eq!(list.commands[0].idx_off, 0);
    assert_eq!(list.commands[0].idx_cnt, 12);
    // Destination rectangles at the origin and one cell to the right.
    let v2a = &list.vtx[2];
    assert!(approx(val(v2a.coord.x), 5.0 / 800.0 * 2.0 - 1.0));
    assert!(approx(val(v2a.coord.y), 7.0 / 600.0 * -2.0 + 1.0));
    let v2b = &list.vtx[6];
    assert!(approx(val(v2b.coord.x), 17.0 / 800.0 * 2.0 - 1.0));
    assert!(approx(val(v2b.coord.y), 7.0 / 600.0 * -2.0 + 1.0));
    // Texture coordinates sample each glyph's atlas cell.
    assert_eq!((v2a.tex_coord.x.num, v2a.tex_coord.x.den), (16, 256));
    assert_eq!((v2a.tex_coord.y.num, v2a.tex_coord.y.den), (208, 2));
    assert_eq!((v2b.tex_coord.x.num, v2b.tex_coord.x.den), (28, 256));
    // Index pattern per quad.
    assert_eq!(list.idx, vec![0, 1, 2, 3, 2, 1, 4, 5, 6, 7, 6, 5]);
}

#[test]
fn draw_text_space_and_newline() {
    let (font, _) = small_font();
    let other = Texture { id: 3, width: 16, height: 16 };
    let mut list = PrimitiveList::new();
    list.set_window_size([800, 600]);
    list.set_texture(Some(other));
    list.text_i(&font, [5, 7], "A B\nC");

    // Three glyphs: the space only advances the pen, the newline returns
    // it and moves one cell down.
    assert_eq!(list.vtx.len(), 12);
    assert_eq!(list.idx.len(), 18);
    let origin = |q: usize| -> (f64, f64) {
        let v = &list.vtx[4 * q + 2];
        (val(v.coord.x), val(v.coord.y))
    };
    let ndc = |x: f64, y: f64| -> (f64, f64) { (x / 800.0 * 2.0 - 1.0, y / 600.0 * -2.0 + 1.0) };
    let (ax, ay) = origin(0);
    let (ex, ey) = ndc(5.0, 7.0);
    assert!(approx(ax, ex) && approx(ay, ey));
    let (bx, by) = origin(1);
    let (ex, ey) = ndc(5.0 + 24.0, 7.0);
    assert!(approx(bx, ex) && approx(by, ey));
    let (cx, cy) = origin(2);
    let (ex, ey) = ndc(5.0, 7.0 + 16.0);
    assert!(approx(cx, ex) && approx(cy, ey));
    // The previously active texture is restored afterwards.
    assert_eq!(list.texture, Some(other));
    assert_eq!(list.commands[0].texture, Some(font.texture));
}

#[test]
fn draw_text_empty_emits_nothing() {
    let (font, _) = small_font();
    let mut list = PrimitiveList::new();
    list.set_window_size([800, 600]);
    list.text_i(&font, [0, 0], "");
    assert_eq!(list.vtx.len(), 0);
    assert_eq!(list.idx.len(), 0);
    assert_eq!(list.commands.len(), 0);
    assert!(list.texture.is_none());
}

#[test]
fn scalar_values_are_exact() {
    let a = Scalar::new(1, 2);
    let b = Scalar::new(2, 4);
    let c = Scalar::new(2, 3);
    assert!(a.eq_value(b));
    assert!(!a.eq_value(c));
    let list = {
        let mut l = PrimitiveList::new();
        l.set_window_size([800, 600]);
        l
    };
    let ndc = list.px_to_pos(Vec2 { x: Scalar::from_int(100), y: Scalar::from_int(100) });
    // 100 px in an 800 px viewport is exactly -0.75 in NDC.
    assert!(ndc.x.eq_value(Scalar::new(-3, 4)));
    // 100 px down in a 600 px viewport is exactly 2/3 in NDC.
    assert!(ndc.y.eq_value(Scalar::new(2, 3)));
}
