use prim2d::geom::Scalar;
use prim2d::primitives::{PrimitiveList, Rgba, Texture, Vec2};

fn val(s: Scalar) -> f64 {
    s.num as f64 / s.den as f64
}

fn approx(a: f64, b: f64) -> bool {
    (a - b).abs() < 1e-6
}

fn white() -> Rgba {
    let one = Scalar::from_int(1);
    Rgba { r: one, g: one, b: one, a: one }
}

fn list_with_window(w: u32, h: u32) -> PrimitiveList {
    let mut list = PrimitiveList::new();
    list.set_window_size([w, h]);
    list
}

fn sc(v: i64) -> Scalar {
    Scalar::from_int(v)
}

#[test]
fn ndc_round_trip() {
    let list = list_with_window(800, 600);
    let samples = [(120i64, 1u64), (7, 2), (0, 1), (799, 1), (-15, 4)];
    for (num, den) in samples {
        let p = Vec2 { x: Scalar::new(num, den), y: Scalar::new(num, den) };
        let ndc = list.px_to_pos(p);
        let back = list.pos_to_px(ndc);
        assert!(back.x.eq_value(p.x));
        assert!(back.y.eq_value(p.y));
        assert!(approx(val(ndc.x), num as f64 / den as f64 / 800.0 * 2.0 - 1.0));
        assert!(approx(val(ndc.y), num as f64 / den as f64 / 600.0 * -2.0 + 1.0));
    }
}

#[test]
fn ndc_flips_y() {
    let list = list_with_window(800, 600);
    let low = list.px_to_pos(Vec2 { x: sc(0), y: sc(100) });
    let high = list.px_to_pos(Vec2 { x: sc(0), y: sc(200) });
    // Larger pixel Y means smaller NDC Y.
    assert!(val(low.y) > val(high.y));
}

#[test]
fn end_to_end_white_rect() {
    let mut list = list_with_window(800, 600);
    list.set_px_space(true);
    list.set_color(white());
    list.rect_f([sc(0), sc(0), sc(100), sc(100)]);

    assert_eq!(list.vtx.len(), 4);
    assert_eq!(list.idx.len(), 6);
    assert_eq!(list.commands.len(), 1);
    assert_eq!(list.commands[0].idx_off, 0);
    assert_eq!(list.commands[0].idx_cnt, 6);
    assert!(list.commands[0].texture.is_none());
    let got: Vec<(f64, f64)> = list.vtx.iter().map(|v| (val(v.coord.x), val(v.coord.y))).collect();
    let expect = [(-1.0, 2.0 / 3.0), (-0.75, 2.0 / 3.0), (-1.0, 1.0), (-0.75, 1.0)];
    for (g, e) in got.iter().zip(expect.iter()) {
        assert!(approx(g.0, e.0), "x: {} vs {}", g.0, e.0);
        assert!(approx(g.1, e.1), "y: {} vs {}", g.1, e.1);
    }
    let idx: Vec<u32> = list.idx.clone();
    assert_eq!(idx, vec![0, 1, 2, 3, 2, 1]);
    for v in &list.vtx {
        assert!(approx(val(v.color.r), 1.0));
        assert!(approx(val(v.color.a), 1.0));
    }
}

#[test]
fn fill_rect_command_merging() {
    let tex = Texture { id: 5, width: 64, height: 64 };
    let mut list = list_with_window(800, 600);
    list.rect_f([sc(0), sc(0), sc(1), sc(1)]);
    list.set_texture(Some(tex));
    list.rect_f([sc(0), sc(0), sc(1), sc(1)]);
    list.rect_f([sc(0), sc(0), sc(1), sc(1)]);
    list.set_texture(None);
    list.rect_f([sc(0), sc(0), sc(1), sc(1)]);

    // Two texture switches, so three commands in call order.
    assert_eq!(list.commands.len(), 3);
    assert!(list.commands[0].texture.is_none());
    assert_eq!(list.commands[1].texture, Some(tex));
    assert!(list.commands[2].texture.is_none());
    // The ranges partition [0, 24) with no gaps or overlaps.
    assert_eq!(list.commands[0].idx_off, 0);
    assert_eq!(list.commands[0].idx_cnt, 6);
    assert_eq!(list.commands[1].idx_off, 6);
    assert_eq!(list.commands[1].idx_cnt, 12);
    assert_eq!(list.commands[2].idx_off, 18);
    assert_eq!(list.commands[2].idx_cnt, 6);
    assert_eq!(list.idx.len(), 24);
    // Every index refers to an existing vertex.
    for &i in list.idx.iter() {
        assert!((i as usize) < list.vtx.len());
    }
}

#[test]
fn vertex_and_push_index() {
    let mut list = list_with_window(800, 600);
    list.set_color(white());
    list.set_tex_coord(Vec2 { x: sc(0), y: sc(1) });
    let i1 = list.vertex_2f(Vec2 { x: sc(0), y: sc(0) });
    list.set_tex_coord(Vec2 { x: sc(1), y: sc(1) });
    let i2 = list.vertex_2f(Vec2 { x: sc(1), y: sc(0) });
    let i3 = list.vertex_2f(Vec2 { x: sc(0), y: sc(1) });
    let i4 = list.vertex_2f(Vec2 { x: sc(1), y: sc(1) });
    assert_eq!((i1, i2, i3, i4), (0, 1, 2, 3));
    // Nothing indexed yet: emission alone adds no commands.
    assert_eq!(list.idx.len(), 0);
    assert_eq!(list.commands.len(), 0);
    for i in [i1, i2, i3, i4, i3, i2] {
        list.push_index(i);
    }
    assert_eq!(list.idx, vec![0, 1, 2, 3, 2, 1]);
    assert_eq!(list.commands.len(), 1);
    assert_eq!(list.commands[0].idx_cnt, 6);
    // The NDC coordinates pass through untransformed outside pixel space.
    assert!(approx(val(list.vtx[1].coord.x), 1.0));
    assert!(approx(val(list.vtx[1].coord.y), 0.0));
    // The texture-coordinate cursor applies from the following vertex on.
    assert!(approx(val(list.vtx[0].tex_coord.x), 0.0));
    assert!(approx(val(list.vtx[1].tex_coord.x), 1.0));
}

#[test]
fn immediate_indices_appends_at_once() {
    let mut list = list_with_window(800, 600);
    list.set_immediate_indices(true);
    let i1 = list.vertex_2f(Vec2 { x: sc(0), y: sc(0) });
    let i2 = list.vertex_2f(Vec2 { x: sc(1), y: sc(0) });
    assert_eq!((i1, i2), (0, 1));
    assert_eq!(list.idx, vec![0, 1]);
    assert_eq!(list.commands.len(), 1);
    assert_eq!(list.commands[0].idx_cnt, 2);
}

#[test]
fn image_rect_tex_coords() {
    let tex = Texture { id: 9, width: 64, height: 32 };
    let mut list = list_with_window(800, 600);
    list.set_texture(Some(tex));
    list.set_color(white());
    list.image_rect_i([10, 20], [4, 8], [12, 16]);

    assert_eq!(list.vtx.len(), 4);
    assert_eq!(list.idx, vec![0, 1, 2, 3, 2, 1]);
    assert_eq!(list.commands.len(), 1);
    assert_eq!(list.commands[0].texture, Some(tex));
    // Vertex 2 is the destination origin; vertex 1 the far corner.
    let v2 = &list.vtx[2];
    assert!(approx(val(v2.coord.x), 10.0 / 800.0 * 2.0 - 1.0));
    assert!(approx(val(v2.coord.y), 20.0 / 600.0 * -2.0 + 1.0));
    assert_eq!((v2.tex_coord.x.num, v2.tex_coord.x.den), (4, 64));
    assert_eq!((v2.tex_coord.y.num, v2.tex_coord.y.den), (8, 32));
    let v1 = &list.vtx[1];
    assert!(approx(val(v1.coord.x), 22.0 / 800.0 * 2.0 - 1.0));
    assert!(approx(val(v1.coord.y), 36.0 / 600.0 * -2.0 + 1.0));
    assert_eq!((v1.tex_coord.x.num, v1.tex_coord.x.den), (16, 64));
    assert_eq!((v1.tex_coord.y.num, v1.tex_coord.y.den), (24, 32));
}

#[test]
fn image_rect_without_texture_is_a_no_op() {
    let mut list = list_with_window(800, 600);
    list.image_rect_i([10, 20], [4, 8], [12, 16]);
    assert_eq!(list.vtx.len(), 0);
    assert_eq!(list.idx.len(), 0);
    assert_eq!(list.commands.len(), 0);
}

#[test]
fn clear_resets_but_keeps_viewport() {
    let tex = Texture { id: 1, width: 8, height: 8 };
    let mut list = list_with_window(1280, 720);
    list.set_px_space(true);
    list.set_texture(Some(tex));
    list.set_color(white());
    list.rect_f([sc(0), sc(0), sc(10), sc(10)]);
    list.clear();
    assert!(list.texture.is_none());
    assert!(!list.px_space);
    assert!(!list.immediate_indices);
    assert_eq!(list.vtx.len(), 0);
    assert_eq!(list.idx.len(), 0);
    assert_eq!(list.commands.len(), 0);
    assert!(approx(val(list.color.a), 0.0));
    assert_eq!(list.window_size, [1280, 720]);
}
