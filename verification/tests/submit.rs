use prim2d::geom::Scalar;
use prim2d::primitives::{PrimitiveList, Rgba, Texture, Vec2, Vertex};
use prim2d::program::{
    calc_count, frame_layout, index_bytes, plan_draws, vertex_scalars, Context,
    STAGING_BUFFER_SIZE,
};

fn sc(v: i64) -> Scalar {
    Scalar::from_int(v)
}

const CAP: usize = STAGING_BUFFER_SIZE as usize;

#[test]
fn calc_count_exact() {
    assert_eq!(calc_count(0, 10, 32), (320, 10));
    // 0x1000000 / 32 = 524288 vertices fill the region exactly.
    assert_eq!(calc_count(0, 600000, 32), (CAP, 524288));
    // A full region leaves no room for any further element.
    assert_eq!(calc_count(CAP, 5, 4), (CAP, 0));
    assert_eq!(calc_count(128, 6, 4), (152, 6));
}

#[test]
fn layout_fits_small_frame() {
    let l = frame_layout(4, 6);
    assert_eq!(l.off_vtx, 0);
    assert_eq!(l.count_vtx, 4);
    assert_eq!(l.off_idx, 128);
    assert_eq!(l.count_idx, 6);
    assert_eq!(l.off_end, 152);
    assert!(!l.truncated);
}

#[test]
fn layout_clamps_vertex_overflow() {
    // Three vertices too many: exactly capacity / vertex-size vertices
    // are written and the index segment gets no room at all.
    let l = frame_layout(524288 + 3, 6);
    assert_eq!(l.count_vtx, 524288);
    assert_eq!(l.off_idx, CAP);
    assert_eq!(l.count_idx, 0);
    assert_eq!(l.off_end, CAP);
    assert!(l.truncated);
}

#[test]
fn layout_clamps_index_overflow() {
    let l = frame_layout(4, 10_000_000);
    assert_eq!(l.count_vtx, 4);
    assert_eq!(l.count_idx, (CAP - 128) / 4);
    assert!(l.truncated);
    assert_eq!(l.off_end, CAP);
}

fn two_command_list() -> PrimitiveList {
    let tex = Texture { id: 2, width: 8, height: 8 };
    let mut list = PrimitiveList::new();
    list.set_window_size([800, 600]);
    list.rect_f([sc(0), sc(0), sc(1), sc(1)]);
    list.set_texture(Some(tex));
    list.rect_f([sc(0), sc(0), sc(1), sc(1)]);
    list
}

#[test]
fn draws_clamp_to_written_indices() {
    let list = two_command_list();
    let full = plan_draws(&list, 12);
    assert_eq!(full.len(), 2);
    assert_eq!((full[0].first, full[0].end), (0, 6));
    assert_eq!((full[1].first, full[1].end), (6, 12));
    assert!(full[0].texture.is_none());
    assert_eq!(full[1].texture, Some(Texture { id: 2, width: 8, height: 8 }));

    let partial = plan_draws(&list, 8);
    assert_eq!((partial[0].first, partial[0].end), (0, 6));
    assert_eq!((partial[1].first, partial[1].end), (6, 8));

    // A truncated frame with no written indices draws nothing.
    let none = plan_draws(&list, 0);
    assert_eq!((none[0].first, none[0].end), (0, 0));
    assert_eq!((none[1].first, none[1].end), (0, 0));
}

#[test]
fn double_buffering_surfaces_tokens() {
    let mut ctx = Context::new(800, 600);
    // First pass over both slots: nothing pending yet.
    assert_eq!(ctx.begin_frame(), None);
    ctx.submit_frame(7);
    assert_eq!(ctx.begin_frame(), None);
    ctx.submit_frame(9);
    // Reusing a slot surfaces the token of its previous submission.
    assert_eq!(ctx.begin_frame(), Some(7));
    ctx.submit_frame(11);
    assert_eq!(ctx.begin_frame(), Some(9));
}

#[test]
fn submitter_tracks_surface_size() {
    let mut ctx = Context::new(0, 0);
    assert_eq!((ctx.surface_width, ctx.surface_height), (1, 1));
    ctx.on_resize(1024, 768);
    assert_eq!((ctx.surface_width, ctx.surface_height), (1024, 768));
    // A zero-sized notification leaves the output extent alone.
    ctx.on_resize(0, 5);
    assert_eq!((ctx.surface_width, ctx.surface_height), (1024, 768));
}

#[test]
fn index_bytes_little_endian() {
    let idx = vec![1u32, 0x01020304];
    let bytes = index_bytes(&idx, 2);
    assert_eq!(bytes, vec![1, 0, 0, 0, 4, 3, 2, 1]);
    let prefix = index_bytes(&idx, 1);
    assert_eq!(prefix, vec![1, 0, 0, 0]);
}

#[test]
fn vertex_wire_order() {
    let v = Vertex {
        coord: Vec2 { x: sc(1), y: sc(2) },
        tex_coord: Vec2 { x: sc(3), y: sc(4) },
        color: Rgba { r: sc(5), g: sc(6), b: sc(7), a: sc(8) },
    };
    let s = vertex_scalars(&v);
    let nums: Vec<i64> = s.iter().map(|x| x.num).collect();
    assert_eq!(nums, vec![1, 2, 3, 4, 5, 6, 7, 8]);
}
